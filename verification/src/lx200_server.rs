//! The Meade LX200 serial protocol, as planetarium clients speak it.
//!
//! A client sends commands of the form `:[Command][Payload]#`. The command is the run of letters
//! after the colon; the payload is the rest up to the hash mark.

use vstd::prelude::*;
use vstd::string::*;
use vstd::utf8::*;

use crate::date_time;
use crate::date_time::{LocalDateTime, parse_date_time};
use crate::position_reporter;
use crate::position_reporter::{TelescopePosition, wiggle};
use crate::text;
use crate::text::{chars_of, parse_i32, push_padded, slice_bytes, string_of};
use crate::units::{DEGREES_PER_HOUR, EPOCH_J2000, MICROARCSECONDS_PER_DEGREE};

verus! {

broadcast use vstd::string::group_string_axioms;

/// What std's `char::is_alphabetic` says of a character.
pub uninterp spec fn is_letter(ch: char) -> bool;

/// std's `char::is_alphabetic`. Its result depends on the character alone; of the ASCII
/// characters it accepts the letters, upper and lower case, and no other.
pub assume_specification[ char::is_alphabetic ](ch: char) -> (letter: bool)
    ensures
        letter == is_letter(ch),
        (ch as u32) < 128 ==> letter == (('a' <= ch && ch <= 'z') || ('A' <= ch && ch <= 'Z')),
;

/// What std's `String::from_utf8_lossy` makes of some bytes.
pub uninterp spec fn lossy_text(bytes: Seq<u8>) -> Seq<char>;

/// Calls std's `String::from_utf8_lossy`. Its result depends on the bytes alone, and valid UTF-8
/// comes back as the text it encodes.
#[verifier::external_body]
fn utf8_lossy(bytes: &[u8]) -> (text: String)
    ensures
        text@ == lossy_text(bytes@),
        valid_utf8(bytes@) ==> text@ == decode_utf8(bytes@),
{
    String::from_utf8_lossy(bytes).into_owned()
}

/// The index of the first `ch` in a sequence, or its length where there is none.
pub open spec fn first_index(s: Seq<char>, ch: char) -> int
    decreases s.len(),
{
    if s.len() == 0 || s[0] == ch {
        0
    } else {
        1 + first_index(s.skip(1), ch)
    }
}

/// How many characters at the start of a sequence are letters.
pub open spec fn letters(s: Seq<char>) -> int
    decreases s.len(),
{
    if s.len() == 0 || !is_letter(s[0]) {
        0
    } else {
        1 + letters(s.skip(1))
    }
}

/// An index is the first of a character when the character is there and nowhere before it.
pub proof fn lemma_first_index(s: Seq<char>, ch: char, at: int)
    requires
        0 <= at <= s.len(),
        forall|j: int| 0 <= j < at ==> s[j] != ch,
        at < s.len() ==> s[at] == ch,
    ensures
        first_index(s, ch) == at,
    decreases s.len(),
{
    if at > 0 {
        assert(s[0] != ch);
        let rest = s.skip(1);
        assert forall|j: int| 0 <= j < at - 1 implies rest[j] != ch by {
            assert(rest[j] == s[j + 1]);
        }
        lemma_first_index(rest, ch, at - 1);
    }
}

/// A first index lies within the sequence.
pub proof fn lemma_first_index_bounds(s: Seq<char>, ch: char)
    ensures
        0 <= first_index(s, ch) <= s.len(),
    decreases s.len(),
{
    if s.len() > 0 && s[0] != ch {
        lemma_first_index_bounds(s.skip(1), ch);
    }
}

/// A run of letters ends where the first character that is no letter stands.
proof fn lemma_letters(s: Seq<char>, count: int)
    requires
        0 <= count <= s.len(),
        forall|j: int| 0 <= j < count ==> is_letter(s[j]),
        count < s.len() ==> !is_letter(s[count]),
    ensures
        letters(s) == count,
    decreases s.len(),
{
    if count > 0 {
        assert(is_letter(s[0]));
        let rest = s.skip(1);
        assert forall|j: int| 0 <= j < count - 1 implies is_letter(rest[j]) by {
            assert(rest[j] == s[j + 1]);
        }
        lemma_letters(rest, count - 1);
    }
}

/// The command in a piece of input: the letters after the first colon, if there are any.
pub open spec fn command_value(piece: Seq<char>) -> Option<Seq<char>> {
    let after = piece.skip(first_index(piece, ':') + 1);
    if first_index(piece, ':') >= piece.len() || letters(after) == 0 {
        None
    } else {
        Some(after.take(letters(after)))
    }
}

/// The commands that the protocol knows.
#[derive(Clone, Copy, Debug, PartialEq, Eq, Structural)]
pub enum Command {
    /// `CM`
    Sync,
    /// `D`
    DistanceBars,
    /// `GC`
    GetDate,
    /// `GD`
    GetDec,
    /// `GG`
    GetTimezone,
    /// `GL`
    GetTime,
    /// `GR`
    GetRa,
    /// `GVD`
    GetFirmwareDate,
    /// `GVN`
    GetFirmwareVersion,
    /// `GVP`
    GetProduct,
    /// `GVT`
    GetFirmwareTime,
    /// `GW`
    GetStatus,
    /// `Gg`
    GetLongitude,
    /// `Gt`
    GetLatitude,
    /// `MS`
    Slew,
    /// `Q`
    Abort,
    /// `SC`
    SetDate,
    /// `SG`
    SetTimezone,
    /// `SL`
    SetTime,
    /// `Sd`
    SetTargetDec,
    /// `Sg`
    SetLongitude,
    /// `Sr`
    SetTargetRa,
    /// `St`
    SetLatitude,
    /// Everything else: movement, rate and precision commands and unknown ones.
    Ignored,
}

/// The command that a run of letters names.
pub open spec fn command_named(name: Seq<char>) -> Command {
    if name == seq!['C', 'M'] {
        Command::Sync
    } else if name == seq!['D'] {
        Command::DistanceBars
    } else if name == seq!['G', 'C'] {
        Command::GetDate
    } else if name == seq!['G', 'D'] {
        Command::GetDec
    } else if name == seq!['G', 'G'] {
        Command::GetTimezone
    } else if name == seq!['G', 'L'] {
        Command::GetTime
    } else if name == seq!['G', 'R'] {
        Command::GetRa
    } else if name == seq!['G', 'V', 'D'] {
        Command::GetFirmwareDate
    } else if name == seq!['G', 'V', 'N'] {
        Command::GetFirmwareVersion
    } else if name == seq!['G', 'V', 'P'] {
        Command::GetProduct
    } else if name == seq!['G', 'V', 'T'] {
        Command::GetFirmwareTime
    } else if name == seq!['G', 'W'] {
        Command::GetStatus
    } else if name == seq!['G', 'g'] {
        Command::GetLongitude
    } else if name == seq!['G', 't'] {
        Command::GetLatitude
    } else if name == seq!['M', 'S'] {
        Command::Slew
    } else if name == seq!['Q'] {
        Command::Abort
    } else if name == seq!['S', 'C'] {
        Command::SetDate
    } else if name == seq!['S', 'G'] {
        Command::SetTimezone
    } else if name == seq!['S', 'L'] {
        Command::SetTime
    } else if name == seq!['S', 'd'] {
        Command::SetTargetDec
    } else if name == seq!['S', 'g'] {
        Command::SetLongitude
    } else if name == seq!['S', 'r'] {
        Command::SetTargetRa
    } else if name == seq!['S', 't'] {
        Command::SetLatitude
    } else {
        Command::Ignored
    }
}

/// Finds the command that a run of letters names.
pub fn find_command(name: &str) -> (command: Command)
    ensures
        command == command_named(name@),
{
    let v: Vec<char> = chars_of(name);
    if v.len() == 1 {
        let a: char = v[0];
        assert(v@ =~= seq![a]);
        if a == 'D' {
            Command::DistanceBars
        } else if a == 'Q' {
            Command::Abort
        } else {
            Command::Ignored
        }
    } else if v.len() == 2 {
        let a: char = v[0];
        let b: char = v[1];
        assert(v@ =~= seq![a, b]);
        proof {
            lemma_two_letters(name@);
        }
        match a {
            'C' => if b == 'M' { Command::Sync } else { Command::Ignored },
            'G' => match b {
                'C' => Command::GetDate,
                'D' => Command::GetDec,
                'G' => Command::GetTimezone,
                'L' => Command::GetTime,
                'R' => Command::GetRa,
                'W' => Command::GetStatus,
                'g' => Command::GetLongitude,
                't' => Command::GetLatitude,
                _ => Command::Ignored,
            },
            'M' => if b == 'S' { Command::Slew } else { Command::Ignored },
            'S' => match b {
                'C' => Command::SetDate,
                'G' => Command::SetTimezone,
                'L' => Command::SetTime,
                'd' => Command::SetTargetDec,
                'g' => Command::SetLongitude,
                'r' => Command::SetTargetRa,
                't' => Command::SetLatitude,
                _ => Command::Ignored,
            },
            _ => Command::Ignored,
        }
    } else if v.len() == 3 {
        let a: char = v[0];
        let b: char = v[1];
        let c: char = v[2];
        assert(v@ =~= seq![a, b, c]);
        if a == 'G' && b == 'V' && c == 'D' {
            Command::GetFirmwareDate
        } else if a == 'G' && b == 'V' && c == 'N' {
            Command::GetFirmwareVersion
        } else if a == 'G' && b == 'V' && c == 'P' {
            Command::GetProduct
        } else if a == 'G' && b == 'V' && c == 'T' {
            Command::GetFirmwareTime
        } else {
            Command::Ignored
        }
    } else {
        Command::Ignored
    }
}

/// Two letters name a command exactly when they are that command's letters.
proof fn lemma_two_letters(s: Seq<char>)
    requires
        s.len() == 2,
    ensures
        forall|a: char, b: char| s == #[trigger] seq![a, b] <==> s[0] == a && s[1] == b,
{
    assert forall|a: char, b: char| s == #[trigger] seq![a, b] <==> s[0] == a && s[1] == b by {
        if s[0] == a && s[1] == b {
            assert(s =~= seq![a, b]);
        }
    }
}

impl Lx200Controller {
    /// The command in a piece of input: the letters after the first colon, if there are any.
    pub fn extract_command(piece: &str) -> (command: Option<String>)
        ensures
            command matches Some(name) ==> command_value(piece@) == Some(name@),
            command is None ==> command_value(piece@) is None,
    {
        let v: Vec<char> = chars_of(piece);
        let mut colon: usize = 0;
        while colon < v.len() && v[colon] != ':'
            invariant
                colon <= v.len(),
                v@ == piece@,
                forall|j: int| 0 <= j < colon ==> piece@[j] != ':',
            decreases v.len() - colon,
        {
            colon = colon + 1;
        }
        proof {
            lemma_first_index(piece@, ':', colon as int);
        }
        if colon == v.len() {
            return None;
        }
        let start: usize = colon + 1;
        let ghost after = piece@.skip(start as int);
        let mut end: usize = start;
        while end < v.len() && v[end].is_alphabetic()
            invariant
                start <= end <= v.len(),
                v@ == piece@,
                after == piece@.skip(start as int),
                forall|j: int| 0 <= j < end - start ==> is_letter(after[j]),
            ensures
                start <= end <= v.len(),
                forall|j: int| 0 <= j < end - start ==> is_letter(after[j]),
                end < v.len() ==> !is_letter(after[end - start]),
            decreases v.len() - end,
        {
            end = end + 1;
        }
        proof {
            lemma_letters(after, end - start);
            assert(after.take(end - start) =~= piece@.subrange(start as int, end as int));
        }
        if end == start {
            None
        } else {
            Some(string_of(&v, start, end))
        }
    }
}

/// An amount in degrees or hours, in 3600 million parts each, as whole units, minutes and
/// seconds, the seconds rounded to the nearest. The sign goes to the whole units.
pub open spec fn hms_value(n: int) -> (int, int, int) {
    let seconds: int = (vstd::math::abs(n) + 500_000) as int / 1_000_000;
    let units: int = seconds / 3600;
    (if n < 0 { -units } else { units }, seconds / 60 % 60, seconds % 60)
}

impl Lx200Controller {
    /// Splits an amount into whole units, minutes and seconds.
    pub fn to_hms(n: i64) -> (hms: (i64, i64, i64))
        ensures
            hms.0 == hms_value(n as int).0,
            hms.1 == hms_value(n as int).1,
            hms.2 == hms_value(n as int).2,
    {
        let magnitude: i128 = if n < 0 { -(n as i128) } else { n as i128 };
        let seconds: i64 = ((magnitude + 500_000) / 1_000_000) as i64;
        let units: i64 = seconds / 3600;
        (if n < 0 { -units } else { units }, seconds / 60 % 60, seconds % 60)
    }
}

/// Whether a number is written with a minus sign. That of `-00` counts, too.
pub open spec fn has_minus(number: Seq<char>) -> bool {
    number.len() > 0 && number[0] == '-'
}

/// The angle that degrees, minutes and seconds stand for, each read as an `i32`. The sign that
/// the degrees are written with is that of the whole.
pub open spec fn coordinates_value(d: Seq<char>, m: Seq<char>, s: Seq<char>) -> Option<int> {
    match (text::i32_value(d), text::i32_value(m), text::i32_value(s)) {
        (Some(degrees), Some(minutes), Some(seconds)) => {
            let magnitude: int = vstd::math::abs(degrees as int) * MICROARCSECONDS_PER_DEGREE
                + minutes * 60_000_000 + seconds * 1_000_000;
            Some(if has_minus(d) { -magnitude } else { magnitude })
        },
        _ => None,
    }
}

impl Lx200Controller {
    /// Reads an angle from its degrees, minutes and seconds.
    pub fn parse_coordinates(d: &str, m: &str, s: &str) -> (r: Option<i64>)
        requires
            text::i32_value(d@) != Some(i32::MIN),
        ensures
            r matches Some(angle) ==> coordinates_value(d@, m@, s@) == Some(angle as int),
            r is None ==> coordinates_value(d@, m@, s@) is None,
    {
        let degrees: i64 = match parse_i32(d) {
            Some(value) => value as i64,
            None => return None,
        };
        let minutes: i64 = match parse_i32(m) {
            Some(value) => value as i64,
            None => return None,
        };
        let seconds: i64 = match parse_i32(s) {
            Some(value) => value as i64,
            None => return None,
        };
        let whole: i64 = if degrees < 0 { -degrees } else { degrees };
        let magnitude: i64 = whole * MICROARCSECONDS_PER_DEGREE + minutes * 60_000_000 + seconds
            * 1_000_000;
        let negative: bool = d.unicode_len() > 0 && d.get_char(0) == '-';
        Some(if negative { -magnitude } else { magnitude })
    }
}

/// The angle that degrees and minutes stand for.
pub open spec fn location_value(deg: Seq<char>, min: Seq<char>) -> Option<int> {
    coordinates_value(deg, min, seq!['0'])
}

impl Lx200Controller {
    /// Reads an angle from its degrees and minutes.
    pub fn parse_location(deg: &str, min: &str) -> (r: Option<i64>)
        requires
            text::i32_value(deg@) != Some(i32::MIN),
        ensures
            r matches Some(angle) ==> location_value(deg@, min@) == Some(angle as int),
            r is None ==> location_value(deg@, min@) is None,
    {
        proof {
            reveal_strlit("0");
            assert("0"@ =~= seq!['0']);
        }
        Self::parse_coordinates(deg, min, "0")
    }
}

/// The mutable state of one client session.
#[derive(Debug)]
pub struct Lx200Controller {
    /// Whether the next stale declination is reported as it is or moved.
    pub wiggle_phase: bool,
    /// How often the client has obtained the right ascension, up to `usize::MAX`.
    pub ra_queries: usize,
    /// Pending target right ascension for sync or slew, in the current epoch.
    pub target_ra: Option<i64>,
    /// Pending target declination for sync or slew, in the current epoch.
    pub target_dec: Option<i64>,
    /// Pending offset from UTC, as `sHHMM`.
    pub timezone: Option<String>,
    /// Pending time, as `HH:MM:SS`.
    pub time: Option<String>,
    /// Local time, possibly provided by the client.
    pub datetime: LocalDateTime,
    /// Site latitude in the client's own form, `sDD:MM`.
    pub latitude: String,
    /// Site longitude in the client's own form, `DDD:MM`, in degrees west of Greenwich.
    pub longitude: String,
    /// The epoch of the coordinates exchanged with the client, in tenths of a year.
    pub jnow_epoch: i32,
}

/// What a session holds, as mathematical values.
pub struct ControllerView {
    /// See `Lx200Controller::wiggle_phase`.
    pub wiggle_phase: bool,
    /// See `Lx200Controller::ra_queries`.
    pub ra_queries: int,
    /// See `Lx200Controller::target_ra`.
    pub target_ra: Option<i64>,
    /// See `Lx200Controller::target_dec`.
    pub target_dec: Option<i64>,
    /// See `Lx200Controller::timezone`.
    pub timezone: Option<Seq<char>>,
    /// See `Lx200Controller::time`.
    pub time: Option<Seq<char>>,
    /// See `Lx200Controller::datetime`.
    pub datetime: LocalDateTime,
    /// See `Lx200Controller::latitude`.
    pub latitude: Seq<char>,
    /// See `Lx200Controller::longitude`.
    pub longitude: Seq<char>,
    /// See `Lx200Controller::jnow_epoch`.
    pub jnow_epoch: i32,
}

/// The characters of a text that may be missing.
pub open spec fn optional_text(text: Option<String>) -> Option<Seq<char>> {
    match text {
        Some(t) => Some(t@),
        None => None,
    }
}

impl View for Lx200Controller {
    type V = ControllerView;

    open spec fn view(&self) -> ControllerView {
        ControllerView {
            wiggle_phase: self.wiggle_phase,
            ra_queries: self.ra_queries as int,
            target_ra: self.target_ra,
            target_dec: self.target_dec,
            timezone: optional_text(self.timezone),
            time: optional_text(self.time),
            datetime: self.datetime,
            latitude: self.latitude@,
            longitude: self.longitude@,
            jnow_epoch: self.jnow_epoch,
        }
    }
}

/// A session and the shared position after some commands, and what was replied to them.
pub struct Outcome {
    /// The session.
    pub controller: ControllerView,
    /// The shared position.
    pub position: TelescopePosition,
    /// The replies, one after the other.
    pub reply: Seq<char>,
}

/// Whether a function carries every position from every epoch to every other, always alike.
pub open spec fn is_precession<F: Fn(i64, i64, i32, i32) -> (i64, i64)>(precess: F) -> bool {
    &&& forall|args: (i64, i64, i32, i32)| #[trigger] call_requires(precess, args)
    &&& forall|args: (i64, i64, i32, i32), a: (i64, i64), b: (i64, i64)|
        #[trigger] call_ensures(precess, args, a) && #[trigger] call_ensures(precess, args, b)
            ==> a == b
}

/// A position carried from one epoch to another.
pub open spec fn precessed<F: Fn(i64, i64, i32, i32) -> (i64, i64)>(
    precess: F,
    ra: i64,
    dec: i64,
    from: i32,
    to: i32,
) -> (i64, i64) {
    choose|r: (i64, i64)| call_ensures(precess, (ra, dec, from, to), r)
}

/// A right ascension as `HH:MM:SS#`, given in microarcseconds.
pub open spec fn ra_reply(ra: int) -> Seq<char> {
    let hms = hms_value(if ra < 0 { -((-ra) / 15) } else { ra / 15 });
    text::padded(hms.0) + seq![':'] + text::padded(hms.1) + seq![':']
        + text::padded(hms.2) + seq!['#']
}

/// A declination as `sDD*MM'SS#`, given in microarcseconds.
pub open spec fn dec_reply(dec: int) -> Seq<char> {
    let hms = hms_value(vstd::math::abs(dec) as int);
    seq![if dec < 0 { '-' } else { '+' }] + text::padded(hms.0) + seq!['*']
        + text::padded(hms.1) + seq!['\''] + text::padded(hms.2) + seq!['#']
}

impl Lx200Controller {
    /// The dates and times that the session holds are ones that the calendar knows.
    pub open spec fn wf(&self) -> bool {
        self.datetime.in_range()
    }

    /// A session that starts at a local time: at the origin of the site, in the epoch of that
    /// time, with nothing pending.
    pub fn new(now: LocalDateTime) -> (controller: Self)
        requires
            now.in_range(),
        ensures
            controller.wf(),
            controller@ == (ControllerView {
                wiggle_phase: false,
                ra_queries: 0,
                target_ra: None,
                target_dec: None,
                timezone: None,
                time: None,
                datetime: now,
                latitude: "+00:00"@,
                longitude: "000:00"@,
                jnow_epoch: now.epoch_value() as i32,
            }),
    {
        Lx200Controller {
            wiggle_phase: false,
            ra_queries: 0,
            target_ra: None,
            target_dec: None,
            timezone: None,
            time: None,
            datetime: now,
            latitude: "+00:00".to_owned(),
            longitude: "000:00".to_owned(),
            jnow_epoch: now.epoch(),
        }
    }

    /// Carries a position of the session's epoch to J2000.
    fn convert_to_j2000<F: Fn(i64, i64, i32, i32) -> (i64, i64)>(
        &self,
        ra: i64,
        dec: i64,
        precess: &F,
    ) -> (r: (i64, i64))
        requires
            is_precession(*precess),
        ensures
            r == precessed(*precess, ra, dec, self@.jnow_epoch, EPOCH_J2000),
    {
        precess(ra, dec, self.jnow_epoch, EPOCH_J2000)
    }

    /// Carries a position of J2000 to the session's epoch.
    fn convert_to_jnow<F: Fn(i64, i64, i32, i32) -> (i64, i64)>(
        &self,
        ra: i64,
        dec: i64,
        precess: &F,
    ) -> (r: (i64, i64))
        requires
            is_precession(*precess),
        ensures
            r == precessed(*precess, ra, dec, EPOCH_J2000, self@.jnow_epoch),
    {
        precess(ra, dec, EPOCH_J2000, self.jnow_epoch)
    }
}

/// The reply to a request for the right ascension; the declination that belongs to it is kept.
pub open spec fn get_ra_outcome<F: Fn(i64, i64, i32, i32) -> (i64, i64)>(
    c: ControllerView,
    p: TelescopePosition,
    precess: F,
) -> Outcome {
    let now = precessed(precess, p.boresight_ra, p.boresight_dec, EPOCH_J2000, c.jnow_epoch);
    Outcome {
        controller: ControllerView {
            ra_queries: if c.ra_queries < usize::MAX { c.ra_queries + 1 } else { c.ra_queries },
            ..c
        },
        position: TelescopePosition { snapshot_dec: Some(now.1), ..p },
        reply: ra_reply(now.0 as int),
    }
}

/// The declination to report before any wiggle: the one kept with the right ascension, or else
/// the current one.
pub open spec fn dec_to_report<F: Fn(i64, i64, i32, i32) -> (i64, i64)>(
    c: ControllerView,
    p: TelescopePosition,
    precess: F,
) -> i64 {
    match p.snapshot_dec {
        Some(dec) => dec,
        None => precessed(
            precess,
            p.boresight_ra,
            p.boresight_dec,
            EPOCH_J2000,
            c.jnow_epoch,
        ).1,
    }
}

/// The reply to a request for the declination. A kept declination is consumed; while the
/// position is stale every second reply is moved.
pub open spec fn get_dec_outcome<F: Fn(i64, i64, i32, i32) -> (i64, i64)>(
    c: ControllerView,
    p: TelescopePosition,
    precess: F,
) -> Outcome {
    let dec = dec_to_report(c, p, precess);
    let phase = if p.boresight_valid { c.wiggle_phase } else { !c.wiggle_phase };
    Outcome {
        controller: ControllerView { wiggle_phase: phase, ..c },
        position: TelescopePosition { snapshot_dec: None, ..p },
        reply: dec_reply(
            if !p.boresight_valid && phase {
                position_reporter::wiggled(dec as int)
            } else {
                dec as int
            },
        ),
    }
}

/// A session and a position that stay as they are, and a reply.
pub open spec fn only_reply(c: ControllerView, p: TelescopePosition, reply: Seq<char>) -> Outcome {
    Outcome { controller: c, position: p, reply }
}

/// Whether a text can be cut before the bytes 3, `a`, `b` and so on, where a command's payload
/// has its fields.
pub open spec fn can_cut_coordinates(s: Seq<char>, a: int, b: int, c: int, d: int, e: int) -> bool {
    &&& text::can_cut(s, 3)
    &&& text::can_cut(s, a)
    &&& text::can_cut(s, b)
    &&& text::can_cut(s, c)
    &&& text::can_cut(s, d)
    &&& text::can_cut(s, e)
}

/// The target in `:SrHH:MM:SS`, in microarcseconds.
pub open spec fn target_ra_value(data: Seq<char>) -> Option<int> {
    if !can_cut_coordinates(data, 5, 6, 8, 9, 11) {
        None
    } else {
        match coordinates_value(
            text::byte_slice(data, 3, 5),
            text::byte_slice(data, 6, 8),
            text::byte_slice(data, 9, 11),
        ) {
            Some(hours) => Some(hours * DEGREES_PER_HOUR),
            None => None,
        }
    }
}

/// Setting the target right ascension: `1` and a new target, or `0` where it does not parse.
pub open spec fn set_target_ra_outcome(
    c: ControllerView,
    p: TelescopePosition,
    data: Seq<char>,
) -> Outcome {
    match target_ra_value(data) {
        Some(ra) => only_reply(
            ControllerView { target_ra: Some(ra as i64), ..c },
            p,
            "1"@,
        ),
        None => only_reply(c, p, "0"@),
    }
}

/// The target in `:SdsDD*MM:SS`, in microarcseconds.
pub open spec fn target_dec_value(data: Seq<char>) -> Option<int> {
    if !can_cut_coordinates(data, 6, 7, 9, 10, 12) {
        None
    } else {
        coordinates_value(
            text::byte_slice(data, 3, 6),
            text::byte_slice(data, 7, 9),
            text::byte_slice(data, 10, 12),
        )
    }
}

/// Setting the target declination: `1` and a new target, or `0` where it does not parse.
pub open spec fn set_target_dec_outcome(
    c: ControllerView,
    p: TelescopePosition,
    data: Seq<char>,
) -> Outcome {
    match target_dec_value(data) {
        Some(dec) => only_reply(
            ControllerView { target_dec: Some(dec as i64), ..c },
            p,
            "1"@,
        ),
        None => only_reply(c, p, "0"@),
    }
}

/// A slew: with both targets pending the shared position is sent there; the targets are consumed
/// either way.
pub open spec fn slew_outcome<F: Fn(i64, i64, i32, i32) -> (i64, i64)>(
    c: ControllerView,
    p: TelescopePosition,
    precess: F,
) -> Outcome {
    let after = ControllerView { target_ra: None, target_dec: None, ..c };
    match (c.target_ra, c.target_dec) {
        (Some(ra), Some(dec)) => {
            let target = precessed(precess, ra, dec, c.jnow_epoch, EPOCH_J2000);
            only_reply(
                after,
                TelescopePosition {
                    slew_target_ra: target.0,
                    slew_target_dec: target.1,
                    slew_active: true,
                    ..p
                },
                "0"@,
            )
        },
        _ => only_reply(after, p, "1No object#"@),
    }
}

/// A sync: with both targets pending they become the sync position; the targets are consumed
/// and the reply is the same either way.
pub open spec fn sync_outcome<F: Fn(i64, i64, i32, i32) -> (i64, i64)>(
    c: ControllerView,
    p: TelescopePosition,
    precess: F,
) -> Outcome {
    let after = ControllerView { target_ra: None, target_dec: None, ..c };
    let reply = " M31 EX GAL MAG 3.5 SZ178.0'#"@;
    match (c.target_ra, c.target_dec) {
        (Some(ra), Some(dec)) => {
            let target = precessed(precess, ra, dec, c.jnow_epoch, EPOCH_J2000);
            only_reply(
                after,
                TelescopePosition { sync_ra: Some(target.0), sync_dec: Some(target.1), ..p },
                reply,
            )
        },
        _ => only_reply(after, p, reply),
    }
}

/// The angle in a site command `:StsDD:MM` or `:SgDDD:MM`.
pub open spec fn site_value(data: Seq<char>) -> Option<int> {
    if text::can_cut(data, 3) && text::can_cut(data, 6) && text::can_cut(
        data,
        7,
    ) && text::can_cut(data, 9) {
        location_value(
            text::byte_slice(data, 3, 6),
            text::byte_slice(data, 7, 9),
        )
    } else {
        None
    }
}

/// Setting the latitude: `1`, the text kept and the angle shared, or `0` where it does not parse.
pub open spec fn set_latitude_outcome(
    c: ControllerView,
    p: TelescopePosition,
    data: Seq<char>,
) -> Outcome {
    match site_value(data) {
        Some(angle) => only_reply(
            ControllerView { latitude: text::byte_slice(data, 3, 9), ..c },
            TelescopePosition { site_latitude: Some(angle as i64), ..p },
            "1"@,
        ),
        None => only_reply(c, p, "0"@),
    }
}

/// A longitude counted west from Greenwich up to 360 degrees, as one counted east up to 180.
pub open spec fn east_longitude(west: int) -> int {
    if west > 180 * MICROARCSECONDS_PER_DEGREE {
        360 * MICROARCSECONDS_PER_DEGREE - west
    } else {
        -west
    }
}

/// Setting the longitude: `1`, the text kept and the angle shared, or `0` where it does not
/// parse.
pub open spec fn set_longitude_outcome(
    c: ControllerView,
    p: TelescopePosition,
    data: Seq<char>,
) -> Outcome {
    match site_value(data) {
        Some(angle) => only_reply(
            ControllerView { longitude: text::byte_slice(data, 3, 9), ..c },
            TelescopePosition { site_longitude: Some(east_longitude(angle) as i64), ..p },
            "1"@,
        ),
        None => only_reply(c, p, "0"@),
    }
}

/// The minutes that the tenths of an hour in `:SGsXX.X` stand for.
pub open spec fn quarter_minutes(tenths: Seq<char>) -> Option<Seq<char>> {
    if tenths == seq!['.', '0'] {
        Some(seq!['0', '0'])
    } else if tenths == seq!['.', '2'] {
        Some(seq!['1', '5'])
    } else if tenths == seq!['.', '5'] {
        Some(seq!['3', '0'])
    } else if tenths == seq!['.', '8'] {
        Some(seq!['4', '5'])
    } else {
        None
    }
}

/// The offset in `:SGsXX.X`, as `sHHMM`.
pub open spec fn timezone_value(data: Seq<char>) -> Option<Seq<char>> {
    if text::can_cut(data, 3) && text::can_cut(data, 6) && text::can_cut(
        data,
        8,
    ) {
        match quarter_minutes(text::byte_slice(data, 6, 8)) {
            Some(minutes) => Some(text::byte_slice(data, 3, 6) + minutes),
            None => None,
        }
    } else {
        None
    }
}

/// Setting the offset from UTC: `1` and a pending offset, or `0` where it does not parse.
pub open spec fn set_timezone_outcome(
    c: ControllerView,
    p: TelescopePosition,
    data: Seq<char>,
) -> Outcome {
    match timezone_value(data) {
        Some(timezone) => only_reply(
            ControllerView { timezone: Some(timezone), ..c },
            p,
            "1"@,
        ),
        None => only_reply(c, p, "0"@),
    }
}

/// Setting the time `:SLHH:MM:SS`: `1` and a pending time, or `0` where there is too little.
pub open spec fn set_time_outcome(
    c: ControllerView,
    p: TelescopePosition,
    data: Seq<char>,
) -> Outcome {
    if text::can_cut(data, 3) && text::can_cut(data, 11) {
        only_reply(
            ControllerView { time: Some(text::byte_slice(data, 3, 11)), ..c },
            p,
            "1"@,
        )
    } else {
        only_reply(c, p, "0"@)
    }
}

/// The date and time made of a pending offset, a pending time and the date in `:SCMM/DD/YY`.
pub open spec fn date_value(c: ControllerView, data: Seq<char>) -> Option<LocalDateTime> {
    match (c.timezone, c.time) {
        (Some(timezone), Some(time)) => if text::can_cut(data, 3)
            && text::can_cut(data, 11) {
            date_time::parsed_date_time(
                timezone + time + text::byte_slice(data, 3, 11),
                date_time::stamp_format(),
            )
        } else {
            None
        },
        _ => None,
    }
}

/// The session and the position once a date and time is set.
pub open spec fn dated(c: ControllerView, p: TelescopePosition, now: LocalDateTime) -> Outcome {
    only_reply(
        ControllerView { datetime: now, jnow_epoch: now.epoch_value() as i32, ..c },
        TelescopePosition { utc_date: Some(now.utc_value() as i64), ..p },
        "1Updating Planetary Data# #"@,
    )
}

/// Setting the date consumes the pending offset and time, and sets date, time and epoch where
/// all three make a date and time; a command that is too short changes nothing.
pub open spec fn set_date_outcome(
    c: ControllerView,
    p: TelescopePosition,
    data: Seq<char>,
) -> Outcome {
    if encode_utf8(data).len() < 11 {
        only_reply(c, p, "0"@)
    } else {
        let consumed = ControllerView { timezone: None, time: None, ..c };
        match date_value(c, data) {
            Some(now) => dated(consumed, p, now),
            None => only_reply(consumed, p, "0"@),
        }
    }
}

impl Lx200Controller {
    /// Reports the right ascension in the session's epoch.
    fn get_ra<F: Fn(i64, i64, i32, i32) -> (i64, i64)>(
        &mut self,
        position: &mut TelescopePosition,
        precess: &F,
    ) -> (reply: String)
        requires
            is_precession(*precess),
            old(self).wf(),
        ensures
            final(self).wf(),
            (Outcome { controller: final(self)@, position: *final(position), reply: reply@ })
                == get_ra_outcome(old(self)@, *old(position), *precess),
    {
        self.ra_queries = self.ra_queries.saturating_add(1);
        let (ra, dec) = self.convert_to_jnow(position.boresight_ra, position.boresight_dec, precess);
        position.snapshot_dec = Some(dec);
        let (h, m, s) = Self::to_hms(ra / DEGREES_PER_HOUR);
        let mut reply = String::new();
        push_padded(&mut reply, h);
        reply.push(':');
        push_padded(&mut reply, m);
        reply.push(':');
        push_padded(&mut reply, s);
        reply.push('#');
        assert(reply@ =~= ra_reply(ra as int));
        reply
    }

    /// Reports the declination in the session's epoch.
    fn get_dec<F: Fn(i64, i64, i32, i32) -> (i64, i64)>(
        &mut self,
        position: &mut TelescopePosition,
        precess: &F,
    ) -> (reply: String)
        requires
            is_precession(*precess),
            old(self).wf(),
        ensures
            final(self).wf(),
            (Outcome { controller: final(self)@, position: *final(position), reply: reply@ })
                == get_dec_outcome(old(self)@, *old(position), *precess),
    {
        let snapshot_dec: Option<i64> = position.snapshot_dec;
        position.snapshot_dec = None;
        let mut dec: i64 = match snapshot_dec {
            Some(dec) => dec,
            None => self.convert_to_jnow(
                position.boresight_ra,
                position.boresight_dec,
                precess,
            ).1,
        };
        if !position.boresight_valid {
            self.wiggle_phase = !self.wiggle_phase;
            if self.wiggle_phase {
                dec = wiggle(dec);
            }
        }
        let mut reply = String::new();
        reply.push(if dec < 0 { '-' } else { '+' });
        let (d, m, s) = Self::to_hms(dec);
        push_padded(&mut reply, if d < 0 { -d } else { d });
        reply.push('*');
        push_padded(&mut reply, m);
        reply.push('\'');
        push_padded(&mut reply, s);
        reply.push('#');
        assert(reply@ =~= dec_reply(dec as int));
        reply
    }
}

impl Lx200Controller {
    /// Sets the target right ascension from `:SrHH:MM:SS`.
    fn set_target_ra(&mut self, data: &str, position: &TelescopePosition) -> (reply: String)
        requires
            old(self).wf(),
        ensures
            final(self).wf(),
            (Outcome { controller: final(self)@, position: *position, reply: reply@ })
                == set_target_ra_outcome(old(self)@, *position, data@),
    {
        if let (Some(h), Some(m), Some(s)) = (
            slice_bytes(data, 3, 5),
            slice_bytes(data, 6, 8),
            slice_bytes(data, 9, 11),
        ) {
            proof {
                text::lemma_short_slice_is_small(data@, 3, 5);
                text::lemma_short_slice_is_small(data@, 6, 8);
                text::lemma_short_slice_is_small(data@, 9, 11);
            }
            if let Some(hours) = Self::parse_coordinates(h, m, s) {
                self.target_ra = Some(hours * DEGREES_PER_HOUR);
                return "1".to_owned();
            }
        }
        "0".to_owned()
    }

    /// Sets the target declination from `:SdsDD*MM:SS`.
    fn set_target_dec(&mut self, data: &str, position: &TelescopePosition) -> (reply: String)
        requires
            old(self).wf(),
        ensures
            final(self).wf(),
            (Outcome { controller: final(self)@, position: *position, reply: reply@ })
                == set_target_dec_outcome(old(self)@, *position, data@),
    {
        if let (Some(d), Some(m), Some(s)) = (
            slice_bytes(data, 3, 6),
            slice_bytes(data, 7, 9),
            slice_bytes(data, 10, 12),
        ) {
            proof {
                text::lemma_short_slice_is_small(data@, 3, 6);
            }
            if let Some(degrees) = Self::parse_coordinates(d, m, s) {
                self.target_dec = Some(degrees);
                return "1".to_owned();
            }
        }
        "0".to_owned()
    }

    /// Slews to the pending target.
    fn slew<F: Fn(i64, i64, i32, i32) -> (i64, i64)>(
        &mut self,
        position: &mut TelescopePosition,
        precess: &F,
    ) -> (reply: String)
        requires
            is_precession(*precess),
            old(self).wf(),
        ensures
            final(self).wf(),
            (Outcome { controller: final(self)@, position: *final(position), reply: reply@ })
                == slew_outcome(old(self)@, *old(position), *precess),
    {
        let target_ra: Option<i64> = self.target_ra;
        let target_dec: Option<i64> = self.target_dec;
        self.target_ra = None;
        self.target_dec = None;
        if let (Some(ra), Some(dec)) = (target_ra, target_dec) {
            let (j2000_ra, j2000_dec) = self.convert_to_j2000(ra, dec, precess);
            position.slew_target_ra = j2000_ra;
            position.slew_target_dec = j2000_dec;
            position.slew_active = true;
            "0".to_owned()
        } else {
            "1No object#".to_owned()
        }
    }

    /// Syncs to the pending target.
    fn sync<F: Fn(i64, i64, i32, i32) -> (i64, i64)>(
        &mut self,
        position: &mut TelescopePosition,
        precess: &F,
    ) -> (reply: String)
        requires
            is_precession(*precess),
            old(self).wf(),
        ensures
            final(self).wf(),
            (Outcome { controller: final(self)@, position: *final(position), reply: reply@ })
                == sync_outcome(old(self)@, *old(position), *precess),
    {
        let target_ra: Option<i64> = self.target_ra;
        let target_dec: Option<i64> = self.target_dec;
        self.target_ra = None;
        self.target_dec = None;
        if let (Some(ra), Some(dec)) = (target_ra, target_dec) {
            let (j2000_ra, j2000_dec) = self.convert_to_j2000(ra, dec, precess);
            position.sync_ra = Some(j2000_ra);
            position.sync_dec = Some(j2000_dec);
        }
        " M31 EX GAL MAG 3.5 SZ178.0'#".to_owned()
    }

    /// Sets the site latitude from `:StsDD:MM`.
    fn set_latitude(&mut self, data: &str, position: &mut TelescopePosition) -> (reply: String)
        requires
            old(self).wf(),
        ensures
            final(self).wf(),
            (Outcome { controller: final(self)@, position: *final(position), reply: reply@ })
                == set_latitude_outcome(old(self)@, *old(position), data@),
    {
        if let (Some(degrees), Some(minutes), Some(whole)) = (
            slice_bytes(data, 3, 6),
            slice_bytes(data, 7, 9),
            slice_bytes(data, 3, 9),
        ) {
            proof {
                text::lemma_short_slice_is_small(data@, 3, 6);
            }
            if let Some(angle) = Self::parse_location(degrees, minutes) {
                self.latitude = whole.to_owned();
                position.site_latitude = Some(angle);
                return "1".to_owned();
            }
        }
        "0".to_owned()
    }

    /// Sets the site longitude from `:SgDDD:MM`.
    fn set_longitude(&mut self, data: &str, position: &mut TelescopePosition) -> (reply: String)
        requires
            old(self).wf(),
        ensures
            final(self).wf(),
            (Outcome { controller: final(self)@, position: *final(position), reply: reply@ })
                == set_longitude_outcome(old(self)@, *old(position), data@),
    {
        if let (Some(degrees), Some(minutes), Some(whole)) = (
            slice_bytes(data, 3, 6),
            slice_bytes(data, 7, 9),
            slice_bytes(data, 3, 9),
        ) {
            proof {
                text::lemma_short_slice_is_small(data@, 3, 6);
                text::lemma_short_slice_is_small(data@, 7, 9);
            }
            if let Some(angle) = Self::parse_location(degrees, minutes) {
                proof {
                    assert(text::i32_value(seq!['0']) == Some(0i32)) by {
                        reveal_with_fuel(text::digits_value, 2);
                    }
                }
                self.longitude = whole.to_owned();
                let east: i64 = if angle > 180 * MICROARCSECONDS_PER_DEGREE {
                    360 * MICROARCSECONDS_PER_DEGREE - angle
                } else {
                    -angle
                };
                position.site_longitude = Some(east);
                return "1".to_owned();
            }
        }
        "0".to_owned()
    }

    /// Sets the pending offset from UTC from `:SGsXX.X`.
    fn set_timezone(&mut self, data: &str, position: &TelescopePosition) -> (reply: String)
        requires
            old(self).wf(),
        ensures
            final(self).wf(),
            (Outcome { controller: final(self)@, position: *position, reply: reply@ })
                == set_timezone_outcome(old(self)@, *position, data@),
    {
        if let (Some(hours), Some(tenths)) = (slice_bytes(data, 3, 6), slice_bytes(data, 6, 8)) {
            let v: Vec<char> = chars_of(tenths);
            let mut timezone: String = hours.to_owned();
            if v.len() == 2 && v[0] == '.' && (v[1] == '0' || v[1] == '2' || v[1] == '5' || v[1]
                == '8') {
                let (tens, ones): (char, char) = match v[1] {
                    '0' => ('0', '0'),
                    '2' => ('1', '5'),
                    '5' => ('3', '0'),
                    _ => ('4', '5'),
                };
                timezone.push(tens);
                timezone.push(ones);
                proof {
                    assert(tenths@ =~= seq!['.', v@[1]]);
                    lemma_two_letters(tenths@);
                    assert(timezone@ =~= hours@ + seq![tens, ones]);
                }
                self.timezone = Some(timezone);
                return "1".to_owned();
            }
            assert(quarter_minutes(tenths@) is None);
        }
        "0".to_owned()
    }

    /// Sets the pending time from `:SLHH:MM:SS`.
    fn set_time(&mut self, data: &str, position: &TelescopePosition) -> (reply: String)
        requires
            old(self).wf(),
        ensures
            final(self).wf(),
            (Outcome { controller: final(self)@, position: *position, reply: reply@ })
                == set_time_outcome(old(self)@, *position, data@),
    {
        match slice_bytes(data, 3, 11) {
            Some(time) => {
                self.time = Some(time.to_owned());
                "1".to_owned()
            },
            None => "0".to_owned(),
        }
    }

    /// Sets date and time from the pending offset, the pending time and `:SCMM/DD/YY`. Where the
    /// three spell out a date and time in full, it is the one that is set.
    pub fn set_date(&mut self, data: &str, position: &mut TelescopePosition) -> (reply: String)
        requires
            old(self).wf(),
        ensures
            final(self).wf(),
            (Outcome { controller: final(self)@, position: *final(position), reply: reply@ })
                == set_date_outcome(old(self)@, *old(position), data@),
            text::can_cut(data@, 3) && text::can_cut(data@, 11) ==> (match (
                old(self)@.timezone,
                old(self)@.time,
            ) {
                (Some(timezone), Some(time)) => {
                    let stamp = timezone + time + text::byte_slice(data@, 3, 11);
                    date_time::is_stamp(stamp) ==> {
                        &&& reply@ == "1Updating Planetary Data# #"@
                        &&& final(self)@.datetime == date_time::stamp_value(stamp)
                        &&& final(position).utc_date == Some(
                            date_time::stamp_value(stamp).unix_seconds,
                        )
                    }
                },
                _ => true,
            }),
    {
        if data.as_bytes().len() < 11 {
            return "0".to_owned();
        }
        let timezone: Option<String> = self.timezone.take();
        let time: Option<String> = self.time.take();
        if let (Some(timezone), Some(time)) = (timezone, time) {
            if let Some(date) = slice_bytes(data, 3, 11) {
                let stamp: String = timezone.concat(time.as_str()).concat(date);
                if let Some(now) = parse_date_time(stamp.as_str(), "%z%H:%M:%S%D") {
                    self.datetime = now;
                    self.jnow_epoch = now.epoch();
                    position.utc_date = Some(now.utc());
                    return "1Updating Planetary Data# #".to_owned();
                }
            }
        }
        "0".to_owned()
    }
}

/// What the protocol asks of one piece of input, given the whole input that it is a piece of.
pub open spec fn piece_outcome<F: Fn(i64, i64, i32, i32) -> (i64, i64)>(
    c: ControllerView,
    p: TelescopePosition,
    data: Seq<char>,
    piece: Seq<char>,
    precess: F,
) -> Outcome {
    match command_value(piece) {
        Some(name) => command_outcome(c, p, data, command_named(name), precess),
        None => if data == seq!['\x06'] {
            only_reply(ControllerView { jnow_epoch: EPOCH_J2000, ..c }, p, "A"@)
        } else {
            only_reply(c, p, Seq::empty())
        },
    }
}

/// What one command does and replies. Commands that carry a payload read it at fixed places of
/// the whole input.
pub open spec fn command_outcome<F: Fn(i64, i64, i32, i32) -> (i64, i64)>(
    c: ControllerView,
    p: TelescopePosition,
    data: Seq<char>,
    command: Command,
    precess: F,
) -> Outcome {
    match command {
        Command::Sync => sync_outcome(c, p, precess),
        Command::DistanceBars => only_reply(
            c,
            p,
            if p.slew_active { "\x7f#"@ } else { "#"@ },
        ),
        Command::GetDate => only_reply(c, p, c.datetime.date_value().push('#')),
        Command::GetDec => get_dec_outcome(c, p, precess),
        Command::GetTimezone => only_reply(c, p, c.datetime.zone_value().push('#')),
        Command::GetTime => only_reply(c, p, c.datetime.time_value().push('#')),
        Command::GetRa => get_ra_outcome(c, p, precess),
        Command::GetFirmwareDate => only_reply(c, p, "Nov 14 2025#"@),
        Command::GetFirmwareVersion => only_reply(c, p, "01.0#"@),
        Command::GetProduct => only_reply(c, p, "Cedar#"@),
        Command::GetFirmwareTime => only_reply(c, p, "23:00:00#"@),
        Command::GetStatus => only_reply(c, p, "AT1"@),
        Command::GetLongitude => only_reply(c, p, c.longitude.push('#')),
        Command::GetLatitude => only_reply(c, p, c.latitude.push('#')),
        Command::Slew => slew_outcome(c, p, precess),
        Command::Abort => only_reply(
            c,
            TelescopePosition { slew_active: false, ..p },
            Seq::empty(),
        ),
        Command::SetDate => set_date_outcome(c, p, data),
        Command::SetTimezone => set_timezone_outcome(c, p, data),
        Command::SetTime => set_time_outcome(c, p, data),
        Command::SetTargetDec => set_target_dec_outcome(c, p, data),
        Command::SetLongitude => set_longitude_outcome(c, p, data),
        Command::SetTargetRa => set_target_ra_outcome(c, p, data),
        Command::SetLatitude => set_latitude_outcome(c, p, data),
        Command::Ignored => only_reply(c, p, Seq::empty()),
    }
}

/// The pieces of `rest`, separated by hash marks, taken one after the other; their replies are
/// joined.
pub open spec fn pieces_outcome<F: Fn(i64, i64, i32, i32) -> (i64, i64)>(
    c: ControllerView,
    p: TelescopePosition,
    data: Seq<char>,
    rest: Seq<char>,
    precess: F,
) -> Outcome
    decreases rest.len(),
{
    let cut = first_index(rest, '#');
    let here = piece_outcome(c, p, data, rest.take(cut), precess);
    if 0 <= cut < rest.len() {
        let there = pieces_outcome(
            here.controller,
            here.position,
            data,
            rest.skip(cut + 1),
            precess,
        );
        Outcome { reply: here.reply + there.reply, ..there }
    } else {
        here
    }
}

/// What the protocol asks of an input text.
pub open spec fn text_outcome<F: Fn(i64, i64, i32, i32) -> (i64, i64)>(
    c: ControllerView,
    p: TelescopePosition,
    data: Seq<char>,
    precess: F,
) -> Outcome {
    pieces_outcome(c, p, data, data, precess)
}

/// The text of some bytes: what they encode, or, where they are no UTF-8, what is made of them.
pub open spec fn text_of(bytes: Seq<u8>) -> Seq<char> {
    if valid_utf8(bytes) {
        decode_utf8(bytes)
    } else {
        lossy_text(bytes)
    }
}

/// What the protocol asks of the bytes of an input.
pub open spec fn input_outcome<F: Fn(i64, i64, i32, i32) -> (i64, i64)>(
    c: ControllerView,
    p: TelescopePosition,
    buffer: Seq<u8>,
    precess: F,
) -> Outcome {
    text_outcome(c, p, text_of(without_leading_hash(buffer)), precess)
}

/// The bytes of an input without one leading hash mark.
pub open spec fn without_leading_hash(buffer: Seq<u8>) -> Seq<u8> {
    if buffer[0] == 35 {
        buffer.skip(1)
    } else {
        buffer
    }
}

impl Lx200Controller {
    /// Performs one command and returns the reply, which may be empty.
    fn perform<F: Fn(i64, i64, i32, i32) -> (i64, i64)>(
        &mut self,
        position: &mut TelescopePosition,
        data: &str,
        command: Command,
        precess: &F,
    ) -> (reply: String)
        requires
            is_precession(*precess),
            old(self).wf(),
        ensures
            final(self).wf(),
            (Outcome { controller: final(self)@, position: *final(position), reply: reply@ })
                == command_outcome(old(self)@, *old(position), data@, command, *precess),
    {
        match command {
            Command::Sync => self.sync(position, precess),
            Command::DistanceBars => if position.slew_active {
                "\x7f#".to_owned()
            } else {
                "#".to_owned()
            },
            Command::GetDate => {
                let mut reply: String = self.datetime.date_text();
                reply.push('#');
                reply
            },
            Command::GetDec => self.get_dec(position, precess),
            Command::GetTimezone => {
                let mut reply: String = self.datetime.zone_text();
                reply.push('#');
                reply
            },
            Command::GetTime => {
                let mut reply: String = self.datetime.time_text();
                reply.push('#');
                reply
            },
            Command::GetRa => self.get_ra(position, precess),
            Command::GetFirmwareDate => "Nov 14 2025#".to_owned(),
            Command::GetFirmwareVersion => "01.0#".to_owned(),
            Command::GetProduct => "Cedar#".to_owned(),
            Command::GetFirmwareTime => "23:00:00#".to_owned(),
            Command::GetStatus => "AT1".to_owned(),
            Command::GetLongitude => {
                let mut reply: String = self.longitude.clone();
                reply.push('#');
                reply
            },
            Command::GetLatitude => {
                let mut reply: String = self.latitude.clone();
                reply.push('#');
                reply
            },
            Command::Slew => self.slew(position, precess),
            Command::Abort => {
                position.slew_active = false;
                String::new()
            },
            Command::SetDate => self.set_date(data, position),
            Command::SetTimezone => self.set_timezone(data, position),
            Command::SetTime => self.set_time(data, position),
            Command::SetTargetDec => self.set_target_dec(data, position),
            Command::SetLongitude => self.set_longitude(data, position),
            Command::SetTargetRa => self.set_target_ra(data, position),
            Command::SetLatitude => self.set_latitude(data, position),
            Command::Ignored => String::new(),
        }
    }

    /// Takes one piece of input and returns the reply, which may be empty.
    fn process_piece<F: Fn(i64, i64, i32, i32) -> (i64, i64)>(
        &mut self,
        position: &mut TelescopePosition,
        data: &str,
        piece: &str,
        precess: &F,
    ) -> (reply: String)
        requires
            is_precession(*precess),
            old(self).wf(),
        ensures
            final(self).wf(),
            (Outcome { controller: final(self)@, position: *final(position), reply: reply@ })
                == piece_outcome(old(self)@, *old(position), data@, piece@, *precess),
    {
        match Self::extract_command(piece) {
            Some(name) => {
                let command: Command = find_command(name.as_str());
                self.perform(position, data, command, precess)
            },
            None => {
                let v: Vec<char> = chars_of(data);
                if v.len() == 1 && v[0] == '\x06' {
                    assert(data@ =~= seq!['\x06']);
                    // The only client that asks for this works in J2000.
                    self.jnow_epoch = EPOCH_J2000;
                    "A".to_owned()
                } else {
                    String::new()
                }
            },
        }
    }

    /// Takes an input text: the commands in it one after the other, their replies joined.
    /// Returns `None` where there is nothing to reply.
    pub fn process_text<F: Fn(i64, i64, i32, i32) -> (i64, i64)>(
        &mut self,
        data: &str,
        position: &mut TelescopePosition,
        precess: &F,
    ) -> (reply: Option<String>)
        requires
            is_precession(*precess),
            old(self).wf(),
        ensures
            final(self).wf(),
            (Outcome {
                controller: final(self)@,
                position: *final(position),
                reply: match reply {
                    Some(text) => text@,
                    None => Seq::empty(),
                },
            }) == text_outcome(old(self)@, *old(position), data@, *precess),
            reply matches Some(text) ==> text@.len() > 0,
    {
        let v: Vec<char> = chars_of(data);
        let mut reply = String::new();
        let mut start: usize = 0;
        let ghost whole = text_outcome(self@, *position, data@, *precess);
        assert(data@.skip(0) =~= data@);
        assert(reply@ + whole.reply =~= whole.reply);
        loop
            invariant_except_break
                is_precession(*precess),
                self.wf(),
                v@ == data@,
                start <= v.len(),
                ({
                    let there = pieces_outcome(
                        self@,
                        *position,
                        data@,
                        data@.skip(start as int),
                        *precess,
                    );
                    &&& whole.controller == there.controller
                    &&& whole.position == there.position
                    &&& whole.reply == reply@ + there.reply
                }),
            ensures
                self.wf(),
                (Outcome { controller: self@, position: *position, reply: reply@ }) == whole,
            decreases v.len() - start,
        {
            let ghost rest = data@.skip(start as int);
            let mut end: usize = start;
            while end < v.len() && v[end] != '#'
                invariant
                    v@ == data@,
                    start <= end <= v.len(),
                    rest == data@.skip(start as int),
                    forall|j: int| 0 <= j < end - start ==> rest[j] != '#',
                decreases v.len() - end,
            {
                end = end + 1;
            }
            proof {
                lemma_first_index(rest, '#', end - start);
                assert(rest.take(end - start) =~= v@.subrange(start as int, end as int));
            }
            let piece: String = string_of(&v, start, end);
            let text: String = self.process_piece(position, data, piece.as_str(), precess);
            let ghost before = reply@;
            reply.append(text.as_str());
            if end == v.len() {
                assert(reply@ =~= whole.reply);
                break;
            }
            proof {
                assert(rest.skip(end - start + 1) =~= data@.skip(end + 1));
                let there = pieces_outcome(
                    self@,
                    *position,
                    data@,
                    data@.skip(end + 1),
                    *precess,
                );
                assert(before + (text@ + there.reply) =~= reply@ + there.reply);
            }
            start = end + 1;
        }
        if reply.as_str().is_empty() {
            assert(reply@ =~= Seq::empty());
            None
        } else {
            Some(reply)
        }
    }

    /// Takes the bytes of one read from a client. A leading hash mark is dropped, as some clients
    /// send one, and bytes that are no UTF-8 are replaced.
    ///
    /// A payload whose fields cut a multi-byte character is refused like one that does not parse.
    pub fn process_input<F: Fn(i64, i64, i32, i32) -> (i64, i64)>(
        &mut self,
        buffer: &[u8],
        position: &mut TelescopePosition,
        precess: &F,
    ) -> (reply: Option<String>)
        requires
            is_precession(*precess),
            old(self).wf(),
            buffer@.len() > 0,
        ensures
            final(self).wf(),
            (Outcome {
                controller: final(self)@,
                position: *final(position),
                reply: match reply {
                    Some(text) => text@,
                    None => Seq::empty(),
                },
            }) == input_outcome(old(self)@, *old(position), buffer@, *precess),
            reply matches Some(text) ==> text@.len() > 0,
    {
        let start: usize = if buffer[0] == 35 { 1 } else { 0 };
        let bytes: &[u8] = vstd::slice::slice_subrange(buffer, start, buffer.len());
        assert(bytes@ =~= without_leading_hash(buffer@));
        let data: String = utf8_lossy(bytes);
        self.process_text(data.as_str(), position, precess)
    }
}

/// A declination asked for after a right ascension belongs to that right ascension, wherever
/// the telescope points by then, and is given out once.
pub proof fn law_declination_belongs_to_right_ascension<
    F: Fn(i64, i64, i32, i32) -> (i64, i64),
>(c: ControllerView, p: TelescopePosition, later: TelescopePosition, precess: F)
    requires
        later.snapshot_dec == get_ra_outcome(c, p, precess).position.snapshot_dec,
        later.boresight_valid,
    ensures
        get_ra_outcome(c, p, precess).reply == ra_reply(
            precessed(precess, p.boresight_ra, p.boresight_dec, EPOCH_J2000, c.jnow_epoch).0 as int,
        ),
        get_dec_outcome(get_ra_outcome(c, p, precess).controller, later, precess).reply
            == dec_reply(
            precessed(precess, p.boresight_ra, p.boresight_dec, EPOCH_J2000, c.jnow_epoch).1 as int,
        ),
        get_dec_outcome(
            get_ra_outcome(c, p, precess).controller,
            later,
            precess,
        ).position.snapshot_dec is None,
{
}

/// While the position is stale, of two declinations asked for one after the other exactly one
/// is moved; a current position is never moved.
pub proof fn law_stale_position_wiggles<F: Fn(i64, i64, i32, i32) -> (i64, i64)>(
    c: ControllerView,
    p: TelescopePosition,
    precess: F,
)
    requires
        p.snapshot_dec is None,
    ensures
        ({
            let dec = dec_to_report(c, p, precess) as int;
            let still = dec_reply(dec);
            let moved = dec_reply(position_reporter::wiggled(dec));
            let first = get_dec_outcome(c, p, precess);
            let second = get_dec_outcome(first.controller, first.position, precess);
            if p.boresight_valid {
                first.reply == still && second.reply == still
            } else {
                ||| first.reply == still && second.reply == moved
                ||| first.reply == moved && second.reply == still
            }
        }),
{
}

/// A slew needs both targets, sends the telescope to them and uses them up: a second slew is
/// refused and leaves the position alone. An abort ends the slew.
pub proof fn law_slew_uses_up_targets<F: Fn(i64, i64, i32, i32) -> (i64, i64)>(
    c: ControllerView,
    p: TelescopePosition,
    data: Seq<char>,
    precess: F,
)
    ensures
        ({
            let first = slew_outcome(c, p, precess);
            let second = slew_outcome(first.controller, first.position, precess);
            let stopped = command_outcome(
                first.controller,
                first.position,
                data,
                Command::Abort,
                precess,
            );
            &&& (first.reply == "0"@ <==> c.target_ra is Some && c.target_dec is Some)
            &&& c.target_ra is Some && c.target_dec is Some ==> first.position.slew_active
            &&& (c.target_ra matches Some(ra) && c.target_dec matches Some(dec)) ==> first.position
                == (TelescopePosition {
                slew_target_ra: precessed(
                    precess,
                    c.target_ra->0,
                    c.target_dec->0,
                    c.jnow_epoch,
                    20_000,
                ).0,
                slew_target_dec: precessed(
                    precess,
                    c.target_ra->0,
                    c.target_dec->0,
                    c.jnow_epoch,
                    20_000,
                ).1,
                slew_active: true,
                ..p
            })
            &&& second.reply == "1No object#"@
            &&& second.position == first.position
            &&& second.controller == first.controller
            &&& !stopped.position.slew_active
            &&& stopped.reply == Seq::<char>::empty()
        }),
{
    reveal_strlit("0");
    reveal_strlit("1No object#");
    assert("0"@.len() != "1No object#"@.len());
}

/// A sync answers the same whether or not there is a target, and uses the targets up.
pub proof fn law_sync_always_answers<F: Fn(i64, i64, i32, i32) -> (i64, i64)>(
    c: ControllerView,
    p: TelescopePosition,
    precess: F,
)
    ensures
        sync_outcome(c, p, precess).reply == " M31 EX GAL MAG 3.5 SZ178.0'#"@,
        sync_outcome(c, p, precess).controller.target_ra is None,
        sync_outcome(c, p, precess).controller.target_dec is None,
        c.target_ra is None || c.target_dec is None ==> sync_outcome(c, p, precess).position == p,
{
}

/// A site that was accepted is read back as it was written; one that was refused changes
/// nothing.
pub proof fn law_site_reads_back<F: Fn(i64, i64, i32, i32) -> (i64, i64)>(
    c: ControllerView,
    p: TelescopePosition,
    data: Seq<char>,
    other: Seq<char>,
    precess: F,
)
    ensures
        ({
            let set = set_latitude_outcome(c, p, data);
            let get = command_outcome(
                set.controller,
                set.position,
                other,
                Command::GetLatitude,
                precess,
            );
            &&& site_value(data) is Some ==> set.reply == "1"@ && get.reply == text::byte_slice(
                data,
                3,
                9,
            ).push('#')
            &&& site_value(data) is None ==> set == only_reply(c, p, "0"@)
        }),
        ({
            let set = set_longitude_outcome(c, p, data);
            let get = command_outcome(
                set.controller,
                set.position,
                other,
                Command::GetLongitude,
                precess,
            );
            &&& site_value(data) is Some ==> set.reply == "1"@ && get.reply == text::byte_slice(
                data,
                3,
                9,
            ).push('#')
            &&& site_value(data) is None ==> set == only_reply(c, p, "0"@)
        }),
{
}

/// Minutes and seconds stay below 60, and the whole is the amount to the nearest second.
pub proof fn law_hms_in_range(n: int)
    ensures
        0 <= hms_value(n).1 < 60,
        0 <= hms_value(n).2 < 60,
        ({
            let units = vstd::math::abs(hms_value(n).0) as int;
            let seconds: int = units * 3600 + hms_value(n).1 * 60 + hms_value(n).2;
            &&& 2 * (vstd::math::abs(n) - seconds * 1_000_000) < 1_000_000
            &&& 2 * (seconds * 1_000_000 - vstd::math::abs(n)) <= 1_000_000
        }),
{
    let amount: int = vstd::math::abs(n) as int;
    let seconds: int = (amount + 500_000) / 1_000_000;
    let minutes: int = seconds / 60;
    assert(0 <= seconds && 0 <= minutes);
    assert(seconds / 3600 == minutes / 60) by {
        vstd::arithmetic::div_mod::lemma_div_denominator(seconds, 60, 60);
    }
    assert(minutes == 60 * (minutes / 60) + minutes % 60);
    assert(seconds == 60 * minutes + seconds % 60);
    assert(vstd::math::abs(hms_value(n).0) == minutes / 60);
}

/// A right ascension in whole seconds of time is reported as it was set: `HH:MM:SS`.
pub proof fn law_right_ascension_reads_back(h: Seq<char>, m: Seq<char>, s: Seq<char>)
    requires
        h.len() == 2 && text::all_digits(h),
        m.len() == 2 && text::all_digits(m) && text::digits_value(m) < 60,
        s.len() == 2 && text::all_digits(s) && text::digits_value(s) < 60,
    ensures
        coordinates_value(h, m, s) matches Some(n) && ra_reply(n * DEGREES_PER_HOUR) == h + seq![
            ':',
        ] + m + seq![':'] + s + seq!['#'],
{
    text::lemma_two_digits(h);
    text::lemma_two_digits(m);
    text::lemma_two_digits(s);
    lemma_hms_of_whole_seconds(
        text::digits_value(h),
        text::digits_value(m),
        text::digits_value(s),
    );
}

/// The angle of whole units, minutes and seconds splits into them again.
proof fn lemma_hms_of_whole_seconds(h: int, m: int, s: int)
    requires
        0 <= h,
        0 <= m < 60,
        0 <= s < 60,
    ensures
        ({
            let n = h * MICROARCSECONDS_PER_DEGREE + m * 60_000_000 + s * 1_000_000;
            &&& n * DEGREES_PER_HOUR / 15 == n
            &&& n * DEGREES_PER_HOUR >= 0
            &&& hms_value(n) == (h, m, s)
        }),
{
    let seconds: int = h * 3600 + m * 60 + s;
    assert(seconds / 3600 == h);
    assert(seconds / 60 == h * 60 + m);
    assert((seconds * 1_000_000 + 500_000) / 1_000_000 == seconds);
}

/// A declination in whole arcseconds is reported as it was set: `sDD` with its minutes and
/// seconds. The equator itself is always reported with a plus sign.
pub proof fn law_declination_reads_back(sign: char, d: Seq<char>, m: Seq<char>, s: Seq<char>)
    requires
        sign == '+' || sign == '-',
        d.len() == 2 && text::all_digits(d),
        m.len() == 2 && text::all_digits(m) && text::digits_value(m) < 60,
        s.len() == 2 && text::all_digits(s) && text::digits_value(s) < 60,
        sign == '-' ==> text::digits_value(d) > 0 || text::digits_value(m) > 0
            || text::digits_value(s) > 0,
    ensures
        coordinates_value(seq![sign] + d, m, s) matches Some(n) && dec_reply(n) == seq![sign] + d
            + seq!['*'] + m + seq!['\''] + s + seq!['#'],
{
    text::lemma_two_digits(d);
    text::lemma_two_digits(m);
    text::lemma_two_digits(s);
    let signed = seq![sign] + d;
    assert(signed.skip(1) =~= d);
    assert(signed[0] == sign);
    lemma_hms_of_whole_seconds(
        text::digits_value(d),
        text::digits_value(m),
        text::digits_value(s),
    );
}

/// An offset, time and date set together are read back as they were written: the time, the
/// date, and the offset with its quarter of an hour.
pub proof fn law_date_reads_back(stamp: Seq<char>)
    requires
        date_time::is_stamp(stamp),
    ensures
        date_time::stamp_value(stamp).in_range(),
        date_time::stamp_value(stamp).time_value() == stamp.subrange(5, 13),
        date_time::stamp_value(stamp).date_value() == stamp.subrange(13, 21),
        date_time::pair(stamp, 1) > 0 || date_time::pair(stamp, 3) > 0 || stamp[0] == '+' ==>
            date_time::stamp_value(stamp).zone_value() == stamp.subrange(0, 3) + seq![
            '.',
            date_time::quarter_digit(date_time::pair(stamp, 3)),
        ],
{
    let value = date_time::stamp_value(stamp);
    assert forall|at: int| at == 1 || at == 3 || at == 5 || at == 8 || at == 11 || at == 13 || at
        == 16 || at == 19 implies text::all_digits(#[trigger] stamp.subrange(at, at + 2)) by {
        let two = stamp.subrange(at, at + 2);
        assert(stamp.subrange(1, 7)[0] == stamp[1] && stamp.subrange(1, 7)[1] == stamp[2]);
        assert(stamp.subrange(1, 7)[2] == stamp[3] && stamp.subrange(1, 7)[3] == stamp[4]);
        assert(stamp.subrange(1, 7)[4] == stamp[5] && stamp.subrange(1, 7)[5] == stamp[6]);
        assert(stamp.subrange(11, 15)[0] == stamp[11] && stamp.subrange(11, 15)[1] == stamp[12]);
        assert(stamp.subrange(11, 15)[2] == stamp[13] && stamp.subrange(11, 15)[3] == stamp[14]);
        assert forall|i: int| 0 <= i < two.len() implies text::is_digit(#[trigger] two[i]) by {
            assert(two[i] == stamp[at + i]);
            if at == 8 {
                assert(two[i] == stamp.subrange(8, 10)[i]);
            } else if at == 16 {
                assert(two[i] == stamp.subrange(16, 18)[i]);
            } else if at == 19 {
                assert(two[i] == stamp.subrange(19, 21)[i]);
            }
        }
    }
    text::lemma_two_digits(stamp.subrange(1, 3));
    text::lemma_two_digits(stamp.subrange(3, 5));
    text::lemma_two_digits(stamp.subrange(5, 7));
    text::lemma_two_digits(stamp.subrange(8, 10));
    text::lemma_two_digits(stamp.subrange(11, 13));
    text::lemma_two_digits(stamp.subrange(13, 15));
    text::lemma_two_digits(stamp.subrange(16, 18));
    text::lemma_two_digits(stamp.subrange(19, 21));
    assert(value.time_value() =~= stamp.subrange(5, 13));
    assert(value.year as int % 100 == date_time::pair(stamp, 19));
    assert(value.date_value() =~= stamp.subrange(13, 21));
    if date_time::pair(stamp, 1) > 0 || date_time::pair(stamp, 3) > 0 || stamp[0] == '+' {
        let minutes = value.offset_minutes_value();
        assert(minutes == date_time::pair(stamp, 1) * 60 + date_time::pair(stamp, 3));
        assert(minutes / 60 == date_time::pair(stamp, 1));
        assert(minutes % 60 == date_time::pair(stamp, 3));
        assert(value.zone_value() =~= stamp.subrange(0, 3) + seq![
            '.',
            date_time::quarter_digit(date_time::pair(stamp, 3)),
        ]);
    }
}

/// An input that holds one command, `:Command#`, has the effect and the reply of that command.
pub proof fn law_single_command<F: Fn(i64, i64, i32, i32) -> (i64, i64)>(
    c: ControllerView,
    p: TelescopePosition,
    name: Seq<char>,
    precess: F,
)
    requires
        name.len() > 0,
        forall|i: int| 0 <= i < name.len() ==> is_letter(#[trigger] name[i]) && name[i] != '#',
    ensures
        text_outcome(c, p, seq![':'] + name + seq!['#'], precess) == command_outcome(
            c,
            p,
            seq![':'] + name + seq!['#'],
            command_named(name),
            precess,
        ),
{
    let data = seq![':'] + name + seq!['#'];
    let cut: int = name.len() as int + 1;
    assert forall|j: int| 0 <= j < cut implies data[j] != '#' by {
        if j > 0 {
            assert(data[j] == name[j - 1]);
        }
    }
    assert(data[cut] == '#');
    lemma_first_index(data, '#', cut);
    let piece = data.take(cut);
    assert(piece =~= seq![':'] + name);
    assert(piece[0] == ':');
    let after = piece.skip(1);
    assert(after =~= name);
    lemma_letters(after, name.len() as int);
    assert(after.take(letters(after)) =~= name);
    let rest = data.skip(cut + 1);
    assert(rest =~= Seq::<char>::empty());
    assert(data.len() >= 3);
    let here = command_outcome(c, p, data, command_named(name), precess);
    let there = pieces_outcome(here.controller, here.position, data, rest, precess);
    assert(rest.take(0) =~= Seq::<char>::empty());
    assert(data != seq!['\x06']) by {
        assert(seq!['\x06'].len() == 1);
    }
    assert(here.reply + there.reply =~= here.reply);
}

/// Whether a command sets something from its payload.
pub open spec fn is_set_command(command: Command) -> bool {
    match command {
        Command::SetDate => true,
        Command::SetTimezone => true,
        Command::SetTime => true,
        Command::SetTargetDec => true,
        Command::SetLongitude => true,
        Command::SetTargetRa => true,
        Command::SetLatitude => true,
        _ => false,
    }
}

/// Whether none of the commands in a text sets something.
pub open spec fn sets_nothing(rest: Seq<char>) -> bool
    decreases rest.len(),
{
    let cut = first_index(rest, '#');
    &&& command_value(rest.take(cut)) matches Some(name) ==> !is_set_command(command_named(name))
    &&& 0 <= cut < rest.len() ==> sets_nothing(rest.skip(cut + 1))
}

/// Where nothing is set, commands do the same in whatever input they stand.
proof fn lemma_whole_input_is_not_read<F: Fn(i64, i64, i32, i32) -> (i64, i64)>(
    c: ControllerView,
    p: TelescopePosition,
    data: Seq<char>,
    other: Seq<char>,
    rest: Seq<char>,
    precess: F,
)
    requires
        sets_nothing(rest),
        data != seq!['\x06'],
        other != seq!['\x06'],
    ensures
        pieces_outcome(c, p, data, rest, precess) == pieces_outcome(c, p, other, rest, precess),
    decreases rest.len(),
{
    let cut = first_index(rest, '#');
    if 0 <= cut < rest.len() {
        let here = piece_outcome(c, p, data, rest.take(cut), precess);
        lemma_whole_input_is_not_read(
            here.controller,
            here.position,
            data,
            other,
            rest.skip(cut + 1),
            precess,
        );
    }
}

/// The pieces of a text that ends with a hash mark come before those of what follows it.
proof fn lemma_pieces_of_joined<F: Fn(i64, i64, i32, i32) -> (i64, i64)>(
    c: ControllerView,
    p: TelescopePosition,
    data: Seq<char>,
    a: Seq<char>,
    b: Seq<char>,
    precess: F,
)
    requires
        a.len() == 0 || a.last() == '#',
        data != seq!['\x06'],
    ensures
        ({
            let first = pieces_outcome(c, p, data, a, precess);
            let second = pieces_outcome(first.controller, first.position, data, b, precess);
            pieces_outcome(c, p, data, a + b, precess) == (Outcome {
                reply: first.reply + second.reply,
                ..second
            })
        }),
    decreases a.len(),
{
    let first = pieces_outcome(c, p, data, a, precess);
    let second = pieces_outcome(first.controller, first.position, data, b, precess);
    if a.len() == 0 {
        assert(a.take(0) =~= Seq::<char>::empty());
        assert(a + b =~= b);
        assert(first.reply + second.reply =~= second.reply);
    } else {
        lemma_first_index_is_there(a, '#');
        let cut = first_index(a, '#');
        let joined = a + b;
        assert forall|j: int| 0 <= j < cut implies joined[j] != '#' by {
            assert(joined[j] == a[j]);
        }
        assert(joined[cut] == '#');
        lemma_first_index(joined, '#', cut);
        assert(joined.take(cut) =~= a.take(cut));
        let rest = a.skip(cut + 1);
        assert(joined.skip(cut + 1) =~= rest + b);
        assert(rest.len() == 0 || rest.last() == a.last());
        let here = piece_outcome(c, p, data, a.take(cut), precess);
        lemma_pieces_of_joined(here.controller, here.position, data, rest, b, precess);
        let there = pieces_outcome(here.controller, here.position, data, rest, precess);
        assert(here.reply + (there.reply + second.reply) =~= (here.reply + there.reply)
            + second.reply);
    }
}

/// In a sequence that ends with a character, the first such character is found.
proof fn lemma_first_index_is_there(s: Seq<char>, ch: char)
    requires
        s.len() > 0,
        s.last() == ch,
    ensures
        0 <= first_index(s, ch) < s.len(),
        s[first_index(s, ch)] == ch,
        forall|j: int| 0 <= j < first_index(s, ch) ==> s[j] != ch,
    decreases s.len(),
{
    if s[0] != ch {
        let rest = s.skip(1);
        assert(rest.last() == s.last());
        lemma_first_index_is_there(rest, ch);
        assert forall|j: int| 0 <= j < first_index(s, ch) implies s[j] != ch by {
            if j > 0 {
                assert(s[j] == rest[j - 1]);
            }
        }
    }
}

/// Two texts that end with hash marks and set nothing do together what they do one after the
/// other, and the replies are joined.
pub proof fn law_joined_texts<F: Fn(i64, i64, i32, i32) -> (i64, i64)>(
    c: ControllerView,
    p: TelescopePosition,
    a: Seq<char>,
    b: Seq<char>,
    precess: F,
)
    requires
        a.len() == 0 || a.last() == '#',
        b.len() == 0 || b.last() == '#',
        sets_nothing(a),
        sets_nothing(b),
    ensures
        ({
            let first = text_outcome(c, p, a, precess);
            let second = text_outcome(first.controller, first.position, b, precess);
            text_outcome(c, p, a + b, precess) == (Outcome {
                reply: first.reply + second.reply,
                ..second
            })
        }),
{
    let data = a + b;
    let ack = seq!['\x06'];
    assert(ack.last() == '\x06');
    assert(data != ack && a != ack && b != ack) by {
        assert(a.len() + b.len() > 0 ==> data.last() == '#');
    }
    lemma_pieces_of_joined(c, p, data, a, b, precess);
    lemma_whole_input_is_not_read(c, p, data, a, a, precess);
    let first = text_outcome(c, p, a, precess);
    lemma_whole_input_is_not_read(first.controller, first.position, data, b, b, precess);
}

/// A hash mark before a text changes nothing.
proof fn lemma_leading_hash_is_idle<F: Fn(i64, i64, i32, i32) -> (i64, i64)>(
    c: ControllerView,
    p: TelescopePosition,
    b: Seq<char>,
    precess: F,
)
    requires
        b.len() == 0 || b.last() == '#',
        sets_nothing(b),
    ensures
        sets_nothing(seq!['#'] + b),
        text_outcome(c, p, seq!['#'] + b, precess) == text_outcome(c, p, b, precess),
{
    let hash = seq!['#'];
    lemma_first_index(hash, '#', 0);
    assert(hash.take(0) =~= Seq::<char>::empty());
    assert(hash.skip(1) =~= Seq::<char>::empty());
    let empty = Seq::<char>::empty();
    assert(empty.take(0) =~= empty);
    assert(command_value(empty) is None);
    assert(sets_nothing(empty));
    assert(sets_nothing(hash));
    law_joined_texts(c, p, hash, b, precess);
    let first = text_outcome(c, p, hash, precess);
    let second = text_outcome(c, p, b, precess);
    assert(hash != seq!['\x06']) by {
        assert(hash[0] != seq!['\x06'][0]);
    }
    assert(pieces_outcome(c, p, hash, empty, precess) == only_reply(c, p, empty));
    assert(first.reply =~= empty);
    assert(first.reply + second.reply =~= second.reply);
    let joined = hash + b;
    lemma_first_index(joined, '#', 0);
    assert(joined.take(0) =~= empty);
    assert(joined.skip(1) =~= b);
}

/// The text of valid bytes that end with a hash mark ends with one.
proof fn lemma_text_ends_with_hash(bytes: Seq<u8>)
    requires
        valid_utf8(bytes),
        bytes.len() > 0,
        bytes.last() == 35,
    ensures
        decode_utf8(bytes).len() > 0,
        decode_utf8(bytes).last() == '#',
{
    let n = bytes.len() - 1;
    is_char_boundary_iff_not_is_continuation_byte(bytes, n);
    valid_utf8_split(bytes, n);
    decode_utf8_split(bytes, n);
    let last = bytes.subrange(n, bytes.len() as int);
    assert(last.len() == 1 && last[0] == 35);
    lemma_text_of_hash(last);
}

/// A byte that is a hash mark reads as one.
proof fn lemma_text_of_hash(bytes: Seq<u8>)
    requires
        bytes.len() == 1,
        bytes[0] == 35,
    ensures
        valid_utf8(bytes),
        decode_utf8(bytes) == seq!['#'],
{
    reveal_with_fuel(valid_utf8, 2);
    reveal_with_fuel(decode_utf8, 2);
    assert(pop_first_scalar(bytes).len() == 0);
    assert(35u8 & 0x7f == 35u8) by (bit_vector);
    assert(decode_first_scalar(bytes) == 35u32);
    assert(decode_utf8(bytes) =~= seq!['#']);
}

/// The text of two pieces of valid bytes is that of the one and then that of the other.
proof fn lemma_text_of_joined(a: Seq<u8>, b: Seq<u8>)
    requires
        valid_utf8(a),
        valid_utf8(b),
    ensures
        valid_utf8(a + b),
        decode_utf8(a + b) == decode_utf8(a) + decode_utf8(b),
{
    let joined = a + b;
    valid_utf8_concat(a, b);
    let n = a.len() as int;
    assert(joined.subrange(0, n) =~= a);
    assert(joined.subrange(n, joined.len() as int) =~= b);
    if b.len() > 0 {
        assert(joined[n] == b[0]);
        is_char_boundary_start_end_of_seq(b);
        is_char_boundary_iff_not_is_continuation_byte(b, 0);
        is_char_boundary_iff_not_is_continuation_byte(joined, n);
    } else {
        is_char_boundary_start_end_of_seq(joined);
    }
    decode_utf8_split(joined, n);
}

/// Two inputs that end with hash marks and set nothing do in one read what they do in two, and
/// the replies are joined: a client may send several commands at once. The inputs are UTF-8, as
/// all commands are.
pub proof fn law_joined_inputs<F: Fn(i64, i64, i32, i32) -> (i64, i64)>(
    c: ControllerView,
    p: TelescopePosition,
    a: Seq<u8>,
    b: Seq<u8>,
    precess: F,
)
    requires
        a.len() > 0 && a.last() == 35 && valid_utf8(a),
        b.len() > 0 && b.last() == 35 && valid_utf8(b),
        sets_nothing(decode_utf8(without_leading_hash(a))),
        sets_nothing(decode_utf8(without_leading_hash(b))),
    ensures
        ({
            let first = input_outcome(c, p, a, precess);
            let second = input_outcome(first.controller, first.position, b, precess);
            input_outcome(c, p, a + b, precess) == (Outcome {
                reply: first.reply + second.reply,
                ..second
            })
        }),
{
    lemma_without_leading_hash(a);
    lemma_without_leading_hash(b);
    let rest_a = without_leading_hash(a);
    let rest_b = without_leading_hash(b);
    let text_a = decode_utf8(rest_a);
    let text_b = decode_utf8(rest_b);
    assert(without_leading_hash(a + b) =~= rest_a + b);
    lemma_text_of_joined(rest_a, b);
    let first = input_outcome(c, p, a, precess);
    if b[0] == 35 {
        lemma_leading_hash_is_idle(first.controller, first.position, text_b, precess);
        law_joined_texts(c, p, text_a, seq!['#'] + text_b, precess);
    } else {
        law_joined_texts(c, p, text_a, text_b, precess);
    }
}

/// An input that ends with a hash mark does so without a leading one, too, or is empty then.
proof fn lemma_without_leading_hash(bytes: Seq<u8>)
    requires
        bytes.len() > 0 && bytes.last() == 35 && valid_utf8(bytes),
    ensures
        ({
            let rest = without_leading_hash(bytes);
            let text = decode_utf8(rest);
            &&& valid_utf8(rest)
            &&& text.len() == 0 || text.last() == '#'
            &&& bytes[0] == 35 ==> decode_utf8(bytes) == seq!['#'] + text
        }),
{
    let rest = without_leading_hash(bytes);
    if bytes[0] == 35 {
        let head = bytes.subrange(0, 1);
        lemma_text_of_hash(head);
        if bytes.len() > 1 {
            reveal_with_fuel(valid_utf8, 2);
            assert(pop_first_scalar(bytes) =~= rest);
        }
        lemma_text_of_joined(head, rest);
        assert(head + rest =~= bytes);
    }
    if rest.len() > 0 {
        lemma_text_ends_with_hash(rest);
    }
}

/// Whether letters are told apart from other characters as std does, among those of ASCII.
pub open spec fn knows_ascii_letters() -> bool {
    forall|ch: char|
        (ch as u32) < 128 ==> #[trigger] is_letter(ch) == (('a' <= ch && ch <= 'z') || ('A' <= ch
            && ch <= 'Z'))
}

/// An input of one command and its payload has the effect and the reply of that command.
proof fn lemma_command_text<F: Fn(i64, i64, i32, i32) -> (i64, i64)>(
    c: ControllerView,
    p: TelescopePosition,
    name: Seq<char>,
    payload: Seq<char>,
    data: Seq<char>,
    precess: F,
)
    requires
        name.len() > 0,
        forall|i: int| 0 <= i < name.len() ==> is_letter(#[trigger] name[i]) && name[i] != '#',
        forall|i: int| 0 <= i < payload.len() ==> #[trigger] payload[i] != '#',
        payload.len() > 0 ==> !is_letter(payload[0]),
        data == seq![':'] + name + payload + seq!['#'],
    ensures
        text_outcome(c, p, data, precess) == command_outcome(
            c,
            p,
            data,
            command_named(name),
            precess,
        ),
{
    let cut: int = (name.len() + payload.len() + 1) as int;
    assert forall|j: int| 0 <= j < cut implies data[j] != '#' by {
        if 0 < j <= name.len() {
            assert(data[j] == name[j - 1]);
        } else if j > name.len() {
            assert(data[j] == payload[j - 1 - name.len()]);
        }
    }
    assert(data[cut] == '#');
    lemma_first_index(data, '#', cut);
    let piece = data.take(cut);
    assert(piece =~= seq![':'] + name + payload);
    assert(piece[0] == ':');
    let after = piece.skip(1);
    assert(after =~= name + payload);
    assert forall|j: int| 0 <= j < name.len() implies is_letter(after[j]) by {
        assert(after[j] == name[j]);
    }
    if payload.len() > 0 {
        assert(after[name.len() as int] == payload[0]);
    }
    lemma_letters(after, name.len() as int);
    assert(after.take(letters(after)) =~= name);
    let rest = data.skip(cut + 1);
    assert(rest =~= Seq::<char>::empty());
    assert(data.len() >= 3);
    let here = command_outcome(c, p, data, command_named(name), precess);
    assert(rest.take(0) =~= Seq::<char>::empty());
    assert(data != seq!['\x06']) by {
        assert(seq!['\x06'].len() == 1);
    }
    let there = pieces_outcome(here.controller, here.position, data, rest, precess);
    assert(here.reply + there.reply =~= here.reply);
}

/// A name of one, two or three letters stands for its command alone.
proof fn lemma_command_names()
    ensures
        command_named(seq!['C', 'M']) == Command::Sync,
        command_named(seq!['D']) == Command::DistanceBars,
        command_named(seq!['G', 'C']) == Command::GetDate,
        command_named(seq!['G', 'D']) == Command::GetDec,
        command_named(seq!['G', 'G']) == Command::GetTimezone,
        command_named(seq!['G', 'L']) == Command::GetTime,
        command_named(seq!['G', 'R']) == Command::GetRa,
        command_named(seq!['G', 'V', 'D']) == Command::GetFirmwareDate,
        command_named(seq!['G', 'V', 'N']) == Command::GetFirmwareVersion,
        command_named(seq!['G', 'V', 'P']) == Command::GetProduct,
        command_named(seq!['G', 'V', 'T']) == Command::GetFirmwareTime,
        command_named(seq!['G', 'W']) == Command::GetStatus,
        command_named(seq!['G', 'g']) == Command::GetLongitude,
        command_named(seq!['G', 't']) == Command::GetLatitude,
        command_named(seq!['M', 'S']) == Command::Slew,
        command_named(seq!['Q']) == Command::Abort,
        command_named(seq!['S', 'C']) == Command::SetDate,
        command_named(seq!['S', 'G']) == Command::SetTimezone,
        command_named(seq!['S', 'L']) == Command::SetTime,
        command_named(seq!['S', 'd']) == Command::SetTargetDec,
        command_named(seq!['S', 'g']) == Command::SetLongitude,
        command_named(seq!['S', 'r']) == Command::SetTargetRa,
        command_named(seq!['S', 't']) == Command::SetLatitude,
{
    let two = |a: char, b: char| seq![a, b];
    assert forall|a: char, b: char, x: char, y: char| a != x || b != y implies #[trigger] two(a, b)
        != #[trigger] two(x, y) by {
        assert(seq![a, b][0] == a && seq![a, b][1] == b);
        assert(seq![x, y][0] == x && seq![x, y][1] == y);
    }
    let three = |a: char, b: char, c: char| seq![a, b, c];
    assert forall|a: char, x: char| a != x implies #[trigger] three('G', 'V', a) != #[trigger] three(
        'G',
        'V',
        x,
    ) by {
        assert(seq!['G', 'V', a][2] == a);
        assert(seq!['G', 'V', x][2] == x);
    }
    assert(seq!['D'][0] == 'D' && seq!['Q'][0] == 'Q');
    assert(two('C', 'M') != two('G', 'C') && two('C', 'M') != two('G', 'D'));
    let names = seq![
        two('C', 'M'),
        two('G', 'C'),
        two('G', 'D'),
        two('G', 'G'),
        two('G', 'L'),
        two('G', 'R'),
        two('G', 'W'),
        two('G', 'g'),
        two('G', 't'),
        two('M', 'S'),
        two('S', 'C'),
        two('S', 'G'),
        two('S', 'L'),
        two('S', 'd'),
        two('S', 'g'),
        two('S', 'r'),
        two('S', 't'),
    ];
    assert(three('G', 'V', 'D') != three('G', 'V', 'N'));
    assert(three('G', 'V', 'P') != three('G', 'V', 'T'));
}

/// A client that sends `:SrHH:MM:SS#` sets the right ascension of its next target, each second of
/// time being fifteen of arc, and nothing else; the answer is `1`.
pub proof fn law_client_sets_right_ascension<F: Fn(i64, i64, i32, i32) -> (i64, i64)>(
    c: &mut Lx200Controller,
    p: &mut TelescopePosition,
    data: &str,
    precess: F,
    reply: Option<String>,
    h: Seq<char>,
    m: Seq<char>,
    s: Seq<char>,
)
    requires
        knows_ascii_letters(),
        call_ensures(Lx200Controller::process_text::<F>, (c, data, p, &precess), reply),
        h.len() == 2 && text::all_digits(h),
        m.len() == 2 && text::all_digits(m),
        s.len() == 2 && text::all_digits(s),
        data@ == seq![':', 'S', 'r'] + h + seq![':'] + m + seq![':'] + s + seq!['#'],
    ensures
        ({
            let seconds = 3600 * text::digits_value(h) + 60 * text::digits_value(m)
                + text::digits_value(s);
            final(c)@ == (ControllerView {
                target_ra: Some((15_000_000 * seconds) as i64),
                ..old(c)@
            })
        }),
        *final(p) == *old(p),
        reply matches Some(text) && text@ == seq!['1'],
{
    let t = data@;
    let payload = h + seq![':'] + m + seq![':'] + s;
    lemma_command_names();
    assert(t =~= seq![':'] + seq!['S', 'r'] + payload + seq!['#']);
    lemma_digits_are_no_letters(h);
    lemma_digits_are_no_letters(m);
    lemma_digits_are_no_letters(s);
    assert(payload[0] == h[0]);
    assert forall|i: int| 0 <= i < payload.len() implies #[trigger] payload[i] != '#' by {
        if i < 2 {
            assert(payload[i] == h[i]);
        } else if 3 <= i < 5 {
            assert(payload[i] == m[i - 3]);
        } else if i >= 6 {
            assert(payload[i] == s[i - 6]);
        }
    }
    lemma_command_text(old(c)@, *old(p), seq!['S', 'r'], payload, t, precess);
    assert forall|i: int| 0 <= i < t.len() implies '\0' <= #[trigger] t[i] <= '\u{7f}' by {
        if 3 <= i < 11 {
            assert(t[i] == payload[i - 3]);
            if i < 5 {
                assert(t[i] == h[i - 3]);
            } else if 6 <= i < 8 {
                assert(t[i] == m[i - 6]);
            } else if 9 <= i {
                assert(t[i] == s[i - 9]);
            }
        }
    }
    text::lemma_ascii_text(t, 3, 5);
    text::lemma_ascii_text(t, 6, 8);
    text::lemma_ascii_text(t, 9, 11);
    assert(t.subrange(3, 5) =~= h && t.subrange(6, 8) =~= m && t.subrange(9, 11) =~= s);
    text::lemma_two_digits(h);
    text::lemma_two_digits(m);
    text::lemma_two_digits(s);
    assert(h[0] != '-');
    reveal_strlit("1");
    assert("1"@ =~= seq!['1']);
}

/// Digits of ASCII are no letters, and no hash marks.
proof fn lemma_digits_are_no_letters(s: Seq<char>)
    requires
        knows_ascii_letters(),
        text::all_digits(s),
    ensures
        forall|i: int|
            0 <= i < s.len() ==> !is_letter(#[trigger] s[i]) && s[i] != '#' && '\0' <= s[i]
                <= '\u{7f}',
{
    assert forall|i: int| 0 <= i < s.len() implies !is_letter(#[trigger] s[i]) && s[i] != '#'
        && '\0'
        <= s[i] <= '\u{7f}' by {
        assert(text::is_digit(s[i]));
    }
}

/// A client that sends `:SdsDD*MM:SS#` sets the declination of its next target, south of the
/// equator where the sign is a minus, and nothing else; the answer is `1`.
pub proof fn law_client_sets_declination<F: Fn(i64, i64, i32, i32) -> (i64, i64)>(
    c: &mut Lx200Controller,
    p: &mut TelescopePosition,
    data: &str,
    precess: F,
    reply: Option<String>,
    sign: char,
    d: Seq<char>,
    m: Seq<char>,
    s: Seq<char>,
)
    requires
        knows_ascii_letters(),
        call_ensures(Lx200Controller::process_text::<F>, (c, data, p, &precess), reply),
        sign == '+' || sign == '-',
        d.len() == 2 && text::all_digits(d),
        m.len() == 2 && text::all_digits(m),
        s.len() == 2 && text::all_digits(s),
        data@ == seq![':', 'S', 'd', sign] + d + seq!['*'] + m + seq![':'] + s + seq!['#'],
    ensures
        ({
            let seconds = 3600 * text::digits_value(d) + 60 * text::digits_value(m)
                + text::digits_value(s);
            final(c)@ == (ControllerView {
                target_dec: Some(
                    (if sign == '-' {
                        -1_000_000 * seconds
                    } else {
                        1_000_000 * seconds
                    }) as i64,
                ),
                ..old(c)@
            })
        }),
        *final(p) == *old(p),
        reply matches Some(text) && text@ == seq!['1'],
{
    let t = data@;
    let payload = seq![sign] + d + seq!['*'] + m + seq![':'] + s;
    lemma_command_names();
    assert(t =~= seq![':'] + seq!['S', 'd'] + payload + seq!['#']);
    lemma_digits_are_no_letters(d);
    lemma_digits_are_no_letters(m);
    lemma_digits_are_no_letters(s);
    assert(payload[0] == sign);
    assert(!is_letter(sign));
    assert forall|i: int| 0 <= i < payload.len() implies #[trigger] payload[i] != '#' by {
        if 1 <= i < 3 {
            assert(payload[i] == d[i - 1]);
        } else if 4 <= i < 6 {
            assert(payload[i] == m[i - 4]);
        } else if i >= 7 {
            assert(payload[i] == s[i - 7]);
        }
    }
    lemma_command_text(old(c)@, *old(p), seq!['S', 'd'], payload, t, precess);
    assert forall|i: int| 0 <= i < t.len() implies '\0' <= #[trigger] t[i] <= '\u{7f}' by {
        if 4 <= i < 6 {
            assert(t[i] == d[i - 4]);
        } else if 7 <= i < 9 {
            assert(t[i] == m[i - 7]);
        } else if 10 <= i < 12 {
            assert(t[i] == s[i - 10]);
        }
    }
    text::lemma_ascii_text(t, 3, 6);
    text::lemma_ascii_text(t, 7, 9);
    text::lemma_ascii_text(t, 10, 12);
    let signed = seq![sign] + d;
    assert(t.subrange(3, 6) =~= signed && t.subrange(7, 9) =~= m && t.subrange(10, 12) =~= s);
    text::lemma_two_digits(d);
    text::lemma_two_digits(m);
    text::lemma_two_digits(s);
    assert(signed.skip(1) =~= d);
    assert(signed[0] == sign);
    reveal_strlit("1");
    assert("1"@ =~= seq!['1']);
}

/// A client that sends `:MS#` after both coordinates of a target were set is led there, whatever
/// the telescope did before: the target of the slew is the one that was set, carried from the
/// client's epoch to J2000. Without a target the client is told so, and nothing happens. `:CM#`
/// hands the target over as where the telescope points, in the same way.
pub proof fn law_client_slews_and_syncs<F: Fn(i64, i64, i32, i32) -> (i64, i64)>(
    c: &mut Lx200Controller,
    p: &mut TelescopePosition,
    data: &str,
    precess: F,
    reply: Option<String>,
    target: (i64, i64),
)
    requires
        knows_ascii_letters(),
        is_precession(precess),
        call_ensures(Lx200Controller::process_text::<F>, (c, data, p, &precess), reply),
        data@ == seq![':', 'M', 'S', '#'] || data@ == seq![':', 'C', 'M', '#'],
        old(c)@.target_ra is Some && old(c)@.target_dec is Some ==> call_ensures(
            precess,
            (old(c)@.target_ra->0, old(c)@.target_dec->0, old(c)@.jnow_epoch, 20_000i32),
            target,
        ),
    ensures
        final(c)@ == (ControllerView { target_ra: None, target_dec: None, ..old(c)@ }),
        ({
            let both = old(c)@.target_ra is Some && old(c)@.target_dec is Some;
            let slews = data@ == seq![':', 'M', 'S', '#'];
            &&& !both ==> *final(p) == *old(p)
            &&& both && slews ==> *final(p) == (TelescopePosition {
                slew_target_ra: target.0,
                slew_target_dec: target.1,
                slew_active: true,
                ..*old(p)
            })
            &&& both && !slews ==> *final(p) == (TelescopePosition {
                sync_ra: Some(target.0),
                sync_dec: Some(target.1),
                ..*old(p)
            })
            &&& both && slews ==> (reply matches Some(text) && text@ == seq!['0'])
            &&& !both && slews ==> (reply matches Some(text) && text@ == "1No object#"@)
            &&& !slews ==> (reply matches Some(text) && text@ == " M31 EX GAL MAG 3.5 SZ178.0'#"@)
        }),
{
    let t = data@;
    let none = Seq::<char>::empty();
    lemma_command_names();
    reveal_strlit("0");
    assert("0"@ =~= seq!['0']);
    reveal_strlit("1No object#");
    reveal_strlit(" M31 EX GAL MAG 3.5 SZ178.0'#");
    assert(seq![':', 'M', 'S', '#'][1] == 'M' && seq![':', 'C', 'M', '#'][1] == 'C');
    if t == seq![':', 'M', 'S', '#'] {
        assert(t =~= seq![':'] + seq!['M', 'S'] + none + seq!['#']);
        lemma_command_text(old(c)@, *old(p), seq!['M', 'S'], none, t, precess);
    } else {
        assert(t =~= seq![':'] + seq!['C', 'M'] + none + seq!['#']);
        lemma_command_text(old(c)@, *old(p), seq!['C', 'M'], none, t, precess);
    }
}

/// An amount within half a second of whole units, minutes and seconds splits into these.
proof fn lemma_hms_is(n: int, d: int, m: int, s: int)
    requires
        0 <= n,
        0 <= d,
        0 <= m < 60,
        0 <= s < 60,
        (3600 * d + 60 * m + s) * 1_000_000 - 500_000 <= n < (3600 * d + 60 * m + s) * 1_000_000
            + 500_000,
    ensures
        hms_value(n) == (d, m, s),
{
    let seconds: int = (n + 500_000) / 1_000_000;
    assert(seconds == 3600 * d + 60 * m + s);
    assert(seconds / 60 == 60 * d + m);
    assert(seconds % 60 == s);
    assert((60 * d + m) % 60 == m);
    assert(seconds / 3600 == d);
}

/// A client that sends `:GR#` is told the right ascension that the telescope points at, carried
/// from J2000 to the client's epoch, as hours, minutes and seconds to the nearest second. The
/// declination that belongs to it is kept for the request that follows.
pub proof fn law_client_asks_right_ascension<F: Fn(i64, i64, i32, i32) -> (i64, i64)>(
    c: &mut Lx200Controller,
    p: &mut TelescopePosition,
    data: &str,
    precess: F,
    reply: Option<String>,
    now: (i64, i64),
    h: int,
    m: int,
    s: int,
)
    requires
        knows_ascii_letters(),
        is_precession(precess),
        call_ensures(Lx200Controller::process_text::<F>, (c, data, p, &precess), reply),
        data@ == seq![':', 'G', 'R', '#'],
        call_ensures(
            precess,
            (old(p).boresight_ra, old(p).boresight_dec, 20_000i32, old(c)@.jnow_epoch),
            now,
        ),
        0 <= now.0,
        0 <= h,
        0 <= m < 60,
        0 <= s < 60,
        (3600 * h + 60 * m + s) * 15_000_000 - 7_500_000 <= now.0 < (3600 * h + 60 * m + s)
            * 15_000_000 + 7_500_000,
    ensures
        reply matches Some(text) && text@ == text::padded(h) + seq![':'] + text::padded(m) + seq![
            ':',
        ] + text::padded(s) + seq!['#'],
        *final(p) == (TelescopePosition { snapshot_dec: Some(now.1), ..*old(p) }),
        final(c)@ == (ControllerView { ra_queries: final(c)@.ra_queries, ..old(c)@ }),
{
    let t = data@;
    let none = Seq::<char>::empty();
    lemma_command_names();
    assert(t =~= seq![':'] + seq!['G', 'R'] + none + seq!['#']);
    lemma_command_text(old(c)@, *old(p), seq!['G', 'R'], none, t, precess);
    lemma_hms_is(now.0 as int / 15, h, m, s);
}

/// A client that sends `:GD#` is told the declination that belongs to the right ascension it asked
/// for before, or else the current one, with its sign, to the nearest second of arc. While the
/// position is stale, every second answer is off by a tenth of a degree, towards the equator.
pub proof fn law_client_asks_declination<F: Fn(i64, i64, i32, i32) -> (i64, i64)>(
    c: &mut Lx200Controller,
    p: &mut TelescopePosition,
    data: &str,
    precess: F,
    reply: Option<String>,
    now: (i64, i64),
    d: int,
    m: int,
    s: int,
)
    requires
        knows_ascii_letters(),
        is_precession(precess),
        call_ensures(Lx200Controller::process_text::<F>, (c, data, p, &precess), reply),
        data@ == seq![':', 'G', 'D', '#'],
        call_ensures(
            precess,
            (old(p).boresight_ra, old(p).boresight_dec, 20_000i32, old(c)@.jnow_epoch),
            now,
        ),
        0 <= d,
        0 <= m < 60,
        0 <= s < 60,
    ensures
        final(c)@ == (ControllerView { wiggle_phase: final(c)@.wiggle_phase, ..old(c)@ }),
        final(c)@.wiggle_phase == old(c)@.wiggle_phase <==> old(p).boresight_valid,
        *final(p) == (TelescopePosition { snapshot_dec: None, ..*old(p) }),
        ({
            let dec: int = match old(p).snapshot_dec {
                Some(kept) => kept as int,
                None => now.1 as int,
            };
            let moved = !old(p).boresight_valid && !old(c)@.wiggle_phase;
            let told = if !moved {
                dec
            } else if dec > 0 {
                dec - 360_000_000
            } else {
                dec + 360_000_000
            };
            let size = if told < 0 {
                -told
            } else {
                told
            };
            let seconds = 3600 * d + 60 * m + s;
            seconds * 1_000_000 - 500_000 <= size < seconds * 1_000_000 + 500_000 ==> (
            reply matches Some(text) && text@ == seq![if told < 0 { '-' } else { '+' }]
                + text::padded(d) + seq!['*'] + text::padded(m) + seq!['\''] + text::padded(s)
                + seq!['#'])
        }),
{
    let t = data@;
    let none = Seq::<char>::empty();
    lemma_command_names();
    assert(t =~= seq![':'] + seq!['G', 'D'] + none + seq!['#']);
    lemma_command_text(old(c)@, *old(p), seq!['G', 'D'], none, t, precess);
    let dec: int = match old(p).snapshot_dec {
        Some(kept) => kept as int,
        None => now.1 as int,
    };
    let moved = !old(p).boresight_valid && !old(c)@.wiggle_phase;
    let told = if !moved {
        dec
    } else if dec > 0 {
        dec - 360_000_000
    } else {
        dec + 360_000_000
    };
    let size = if told < 0 {
        -told
    } else {
        told
    };
    let seconds = 3600 * d + 60 * m + s;
    if seconds * 1_000_000 - 500_000 <= size < seconds * 1_000_000 + 500_000 {
        lemma_hms_is(size, d, m, s);
    }
}

/// What a client is told of the telescope itself, whatever the state, and that it is on its way
/// only while it is. `:Q#` ends a slew and is not answered.
pub proof fn law_client_asks_what_this_is<F: Fn(i64, i64, i32, i32) -> (i64, i64)>(
    c: &mut Lx200Controller,
    p: &mut TelescopePosition,
    data: &str,
    precess: F,
    reply: Option<String>,
    name: Seq<char>,
)
    requires
        knows_ascii_letters(),
        call_ensures(Lx200Controller::process_text::<F>, (c, data, p, &precess), reply),
        data@ == seq![':'] + name + seq!['#'],
        name == seq!['G', 'V', 'P'] || name == seq!['G', 'V', 'N'] || name == seq!['G', 'W'] || name
            == seq!['D'] || name == seq!['Q'] || name == seq!['G', 'g'] || name == seq!['G', 't'],
    ensures
        final(c)@ == old(c)@,
        name == seq!['Q'] ==> reply is None && *final(p) == (TelescopePosition {
            slew_active: false,
            ..*old(p)
        }),
        name != seq!['Q'] ==> *final(p) == *old(p),
        name == seq!['G', 'V', 'P'] ==> (reply matches Some(text) && text@ == "Cedar#"@),
        name == seq!['G', 'V', 'N'] ==> (reply matches Some(text) && text@ == "01.0#"@),
        name == seq!['G', 'W'] ==> (reply matches Some(text) && text@ == "AT1"@),
        name == seq!['D'] ==> (reply matches Some(text) && text@ == (if old(p).slew_active {
            seq!['\x7f', '#']
        } else {
            seq!['#']
        })),
        name == seq!['G', 'g'] ==> (reply matches Some(text) && text@ == old(c)@.longitude + seq![
            '#',
        ]),
        name == seq!['G', 't'] ==> (reply matches Some(text) && text@ == old(c)@.latitude + seq![
            '#',
        ]),
{
    let t = data@;
    let none = Seq::<char>::empty();
    lemma_command_names();
    assert(seq!['D'][0] == 'D' && seq!['Q'][0] == 'Q');
    assert(seq!['G', 'V', 'P'][2] == 'P' && seq!['G', 'V', 'N'][2] == 'N');
    assert(seq!['G', 'W'][1] == 'W' && seq!['G', 'g'][1] == 'g' && seq!['G', 't'][1] == 't');
    assert(t =~= seq![':'] + name + none + seq!['#']);
    lemma_command_text(old(c)@, *old(p), name, none, t, precess);
    reveal_strlit("Cedar#");
    reveal_strlit("01.0#");
    reveal_strlit("AT1");
    reveal_strlit("\x7f#");
    reveal_strlit("#");
    assert("\x7f#"@ =~= seq!['\x7f', '#']);
    assert("#"@ =~= seq!['#']);
    assert(old(c)@.longitude.push('#') =~= old(c)@.longitude + seq!['#']);
    assert(old(c)@.latitude.push('#') =~= old(c)@.latitude + seq!['#']);
}

/// A command that the protocol does not know is passed over, and so is what is no command at all.
pub proof fn law_unknown_commands_do_nothing<F: Fn(i64, i64, i32, i32) -> (i64, i64)>(
    c: &mut Lx200Controller,
    p: &mut TelescopePosition,
    data: &str,
    precess: F,
    reply: Option<String>,
    name: Seq<char>,
)
    requires
        knows_ascii_letters(),
        call_ensures(Lx200Controller::process_text::<F>, (c, data, p, &precess), reply),
        name.len() > 0,
        forall|i: int| 0 <= i < name.len() ==> is_letter(#[trigger] name[i]) && name[i] != '#',
        data@ == seq![':'] + name + seq!['#'],
        name.len() > 3 || (name[0] != 'C' && name[0] != 'D' && name[0] != 'G' && name[0] != 'M'
            && name[0] != 'Q' && name[0] != 'S'),
    ensures
        final(c)@ == old(c)@,
        *final(p) == *old(p),
        reply is None,
{
    let t = data@;
    let none = Seq::<char>::empty();
    assert(t =~= seq![':'] + name + none + seq!['#']);
    lemma_command_text(old(c)@, *old(p), name, none, t, precess);
    lemma_unknown_name(name);
}

/// A name of more than three letters, or with another first letter than commands have, is that of
/// no command.
#[verifier::spinoff_prover]
proof fn lemma_unknown_name(name: Seq<char>)
    requires
        name.len() > 0,
        name.len() > 3 || (name[0] != 'C' && name[0] != 'D' && name[0] != 'G' && name[0] != 'M'
            && name[0] != 'Q' && name[0] != 'S'),
    ensures
        command_named(name) == Command::Ignored,
{
    assert(seq!['D'][0] == 'D' && seq!['Q'][0] == 'Q' && seq!['C', 'M'][0] == 'C' && seq![
        'M',
        'S',
    ][0] == 'M');
    assert(seq!['G', 'C'][0] == 'G' && seq!['G', 'D'][0] == 'G' && seq!['G', 'G'][0] == 'G'
        && seq!['G', 'L'][0] == 'G' && seq!['G', 'R'][0] == 'G' && seq!['G', 'W'][0] == 'G'
        && seq!['G', 'g'][0] == 'G' && seq!['G', 't'][0] == 'G');
    assert(seq!['G', 'V', 'D'][0] == 'G' && seq!['G', 'V', 'N'][0] == 'G' && seq![
        'G',
        'V',
        'P',
    ][0] == 'G' && seq!['G', 'V', 'T'][0] == 'G');
    assert(seq!['S', 'C'][0] == 'S' && seq!['S', 'G'][0] == 'S' && seq!['S', 'L'][0] == 'S'
        && seq!['S', 'd'][0] == 'S' && seq!['S', 'g'][0] == 'S' && seq!['S', 'r'][0] == 'S'
        && seq!['S', 't'][0] == 'S');
}

/// A client that sends the byte of acknowledgement alone works in J2000 from there on.
pub proof fn law_acknowledgement_means_j2000<F: Fn(i64, i64, i32, i32) -> (i64, i64)>(
    c: &mut Lx200Controller,
    p: &mut TelescopePosition,
    data: &str,
    precess: F,
    reply: Option<String>,
)
    requires
        call_ensures(Lx200Controller::process_text::<F>, (c, data, p, &precess), reply),
        data@ == seq!['\x06'],
    ensures
        final(c)@ == (ControllerView { jnow_epoch: 20_000, ..old(c)@ }),
        *final(p) == *old(p),
        reply matches Some(text) && text@ == seq!['A'],
{
    let t = data@;
    lemma_first_index(t, '#', 1);
    lemma_first_index(t, ':', 1);
    assert(t.take(1) =~= t);
    assert(command_value(t) is None);
    reveal_strlit("A");
    assert("A"@ =~= seq!['A']);
}

/// A client that sends `:StsDD*MM#` sets the latitude of the site, and one that sends
/// `:SgDDD*MM#` its longitude, which the client counts west from Greenwich and the server east.
/// Either text is kept and told again.
pub proof fn law_client_sets_the_site<F: Fn(i64, i64, i32, i32) -> (i64, i64)>(
    c: &mut Lx200Controller,
    p: &mut TelescopePosition,
    data: &str,
    precess: F,
    reply: Option<String>,
    which: char,
    lead: char,
    d: Seq<char>,
    mark: char,
    m: Seq<char>,
)
    requires
        knows_ascii_letters(),
        call_ensures(Lx200Controller::process_text::<F>, (c, data, p, &precess), reply),
        (which == 't' && (lead == '+' || lead == '-')) || (which == 'g' && '0' <= lead && lead
            <= '3'),
        d.len() == 2 && text::all_digits(d),
        mark == '*' || mark == ':',
        m.len() == 2 && text::all_digits(m),
        data@ == seq![':', 'S', which, lead] + d + seq![mark] + m + seq!['#'],
    ensures
        ({
            let angle = 3_600_000_000 * text::digits_value(d) + 60_000_000 * text::digits_value(m);
            let kept = seq![lead] + d + seq![mark] + m;
            let west = 360_000_000_000 * (lead as int - '0' as int) + angle;
            &&& which == 't' ==> {
                &&& final(c)@ == (ControllerView { latitude: kept, ..old(c)@ })
                &&& *final(p) == (TelescopePosition {
                    site_latitude: Some((if lead == '-' { -angle } else { angle }) as i64),
                    ..*old(p)
                })
            }
            &&& which == 'g' ==> {
                &&& final(c)@ == (ControllerView { longitude: kept, ..old(c)@ })
                &&& *final(p) == (TelescopePosition {
                    site_longitude: Some(
                        (if west > 648_000_000_000 {
                            1_296_000_000_000 - west
                        } else {
                            -west
                        }) as i64,
                    ),
                    ..*old(p)
                })
            }
        }),
        reply matches Some(text) && text@ == seq!['1'],
{
    let t = data@;
    let name = seq!['S', which];
    let payload = seq![lead] + d + seq![mark] + m;
    lemma_command_names();
    assert(t =~= seq![':'] + name + payload + seq!['#']);
    lemma_digits_are_no_letters(d);
    lemma_digits_are_no_letters(m);
    assert(payload[0] == lead);
    assert(!is_letter(lead));
    assert forall|i: int| 0 <= i < payload.len() implies #[trigger] payload[i] != '#' by {
        if 1 <= i < 3 {
            assert(payload[i] == d[i - 1]);
        } else if 4 <= i < 6 {
            assert(payload[i] == m[i - 4]);
        }
    }
    lemma_command_text(old(c)@, *old(p), name, payload, t, precess);
    assert forall|i: int| 0 <= i < t.len() implies '\0' <= #[trigger] t[i] <= '\u{7f}' by {
        if 4 <= i < 6 {
            assert(t[i] == d[i - 4]);
        } else if 7 <= i < 9 {
            assert(t[i] == m[i - 7]);
        }
    }
    text::lemma_ascii_text(t, 3, 6);
    text::lemma_ascii_text(t, 7, 9);
    text::lemma_ascii_text(t, 3, 9);
    let signed = seq![lead] + d;
    assert(t.subrange(3, 6) =~= signed && t.subrange(7, 9) =~= m && t.subrange(3, 9) =~= payload);
    text::lemma_two_digits(d);
    text::lemma_two_digits(m);
    assert(signed.skip(1) =~= d);
    assert(signed[0] == lead);
    assert(text::digits_value(seq!['0']) == 0) by {
        reveal_with_fuel(text::digits_value, 2);
        assert(seq!['0'].drop_last() =~= Seq::<char>::empty());
    }
    assert(text::all_digits(seq!['0']));
    assert(seq!['0'][0] == '0');
    if which == 'g' {
        assert(text::all_digits(signed)) by {
            assert forall|i: int| 0 <= i < signed.len() implies text::is_digit(
                #[trigger] signed[i],
            ) by {
                if i > 0 {
                    assert(signed[i] == d[i - 1]);
                }
            }
        }
        reveal_with_fuel(text::digits_value, 4);
        assert(signed.drop_last().drop_last() =~= seq![lead]);
        assert(seq![lead].drop_last() =~= Seq::<char>::empty());
        assert(d.drop_last().drop_last() =~= Seq::<char>::empty());
        assert(text::digits_value(signed) == 100 * (lead as int - 48) + text::digits_value(d));
    }
    reveal_strlit("1");
    assert("1"@ =~= seq!['1']);
}

/// An offset from UTC of whole hours and quarters, `:SGsHH.X#`, is kept as hours and minutes, and
/// a time, `:SLHH:MM:SS#`, as it is; both wait for the date. The answer is `1`.
pub proof fn law_client_sets_zone_and_time<F: Fn(i64, i64, i32, i32) -> (i64, i64)>(
    c: &mut Lx200Controller,
    p: &mut TelescopePosition,
    data: &str,
    precess: F,
    reply: Option<String>,
    which: char,
    fields: Seq<char>,
)
    requires
        knows_ascii_letters(),
        call_ensures(Lx200Controller::process_text::<F>, (c, data, p, &precess), reply),
        is_ascii_chars(fields),
        forall|i: int| 0 <= i < fields.len() ==> #[trigger] fields[i] != '#',
        (which == 'G' && fields.len() == 5 && (fields[0] == '+' || fields[0] == '-') && fields[3]
            == '.' && (fields[4] == '0' || fields[4] == '2' || fields[4] == '5' || fields[4]
                == '8'))
            || (which == 'L' && fields.len() == 8 && text::is_digit(fields[0])),
        data@ == seq![':', 'S', which] + fields + seq!['#'],
    ensures
        ({
            let minutes = if fields[4] == '0' {
                seq!['0', '0']
            } else if fields[4] == '2' {
                seq!['1', '5']
            } else if fields[4] == '5' {
                seq!['3', '0']
            } else {
                seq!['4', '5']
            };
            &&& which == 'G' ==> final(c)@ == (ControllerView {
                timezone: Some(fields.take(3) + minutes),
                ..old(c)@
            })
            &&& which == 'L' ==> final(c)@ == (ControllerView { time: Some(fields), ..old(c)@ })
        }),
        *final(p) == *old(p),
        reply matches Some(text) && text@ == seq!['1'],
{
    let t = data@;
    let name = seq!['S', which];
    lemma_command_names();
    assert(t =~= seq![':'] + name + fields + seq!['#']);
    assert(!is_letter(fields[0]));
    lemma_command_text(old(c)@, *old(p), name, fields, t, precess);
    assert forall|i: int| 0 <= i < t.len() implies '\0' <= #[trigger] t[i] <= '\u{7f}' by {
        if 3 <= i < 3 + fields.len() {
            assert(t[i] == fields[i - 3]);
        }
    }
    if which == 'G' {
        text::lemma_ascii_text(t, 3, 6);
        text::lemma_ascii_text(t, 6, 8);
        assert(t.subrange(3, 6) =~= fields.take(3));
        assert(t.subrange(6, 8) =~= seq!['.', fields[4]]);
        assert(seq!['.', '0'][1] == '0' && seq!['.', '2'][1] == '2' && seq!['.', '5'][1] == '5'
            && seq!['.', '8'][1] == '8');
    } else {
        text::lemma_ascii_text(t, 3, 11);
        assert(t.subrange(3, 11) =~= fields);
    }
    reveal_strlit("1");
    assert("1"@ =~= seq!['1']);
}

/// A date, `:SCMM/DD/YY#`, uses up the offset and the time that wait for it. Where all three make
/// a date and time, that is the session's from there on: with its epoch, and shared as the time of
/// the observation. Otherwise the client is told that they do not.
pub proof fn law_client_sets_the_date<F: Fn(i64, i64, i32, i32) -> (i64, i64)>(
    c: &mut Lx200Controller,
    p: &mut TelescopePosition,
    data: &str,
    precess: F,
    reply: Option<String>,
    fields: Seq<char>,
)
    requires
        knows_ascii_letters(),
        call_ensures(Lx200Controller::process_text::<F>, (c, data, p, &precess), reply),
        is_ascii_chars(fields),
        forall|i: int| 0 <= i < fields.len() ==> #[trigger] fields[i] != '#',
        fields.len() == 8 && text::is_digit(fields[0]),
        data@ == seq![':', 'S', 'C'] + fields + seq!['#'],
    ensures
        final(c)@.timezone is None && final(c)@.time is None,
        ({
            let made = if old(c)@.timezone is Some && old(c)@.time is Some {
                date_time::parsed_date_time(
                    old(c)@.timezone->0 + old(c)@.time->0 + fields,
                    "%z%H:%M:%S%D"@,
                )
            } else {
                None
            };
            match made {
                Some(now) => {
                    &&& final(c)@ == (ControllerView {
                        timezone: None,
                        time: None,
                        datetime: now,
                        jnow_epoch: now.epoch_value() as i32,
                        ..old(c)@
                    })
                    &&& *final(p) == (TelescopePosition {
                        utc_date: Some(now.utc_value() as i64),
                        ..*old(p)
                    })
                    &&& reply matches Some(text) && text@ == "1Updating Planetary Data# #"@
                },
                None => {
                    &&& final(c)@ == (ControllerView { timezone: None, time: None, ..old(c)@ })
                    &&& *final(p) == *old(p)
                    &&& reply matches Some(text) && text@ == seq!['0']
                },
            }
        }),
{
    let t = data@;
    let name = seq!['S', 'C'];
    lemma_command_names();
    assert(t =~= seq![':'] + name + fields + seq!['#']);
    assert(!is_letter(fields[0]));
    lemma_command_text(old(c)@, *old(p), name, fields, t, precess);
    assert forall|i: int| 0 <= i < t.len() implies '\0' <= #[trigger] t[i] <= '\u{7f}' by {
        if 3 <= i < 3 + fields.len() {
            assert(t[i] == fields[i - 3]);
        }
    }
    text::lemma_ascii_text(t, 3, 11);
    assert(t.subrange(3, 11) =~= fields);
    reveal_strlit("0");
    reveal_strlit("1Updating Planetary Data# #");
    assert("0"@ =~= seq!['0']);
}

/// What a client is told of the date and the time is what the session has.
pub proof fn law_client_asks_date_and_time<F: Fn(i64, i64, i32, i32) -> (i64, i64)>(
    c: &mut Lx200Controller,
    p: &mut TelescopePosition,
    data: &str,
    precess: F,
    reply: Option<String>,
    name: Seq<char>,
    now: LocalDateTime,
    time: String,
    date: String,
    zone: String,
)
    requires
        knows_ascii_letters(),
        call_ensures(Lx200Controller::process_text::<F>, (c, data, p, &precess), reply),
        data@ == seq![':'] + name + seq!['#'],
        name == seq!['G', 'C'] || name == seq!['G', 'L'] || name == seq!['G', 'G'],
        now == old(c)@.datetime,
        call_ensures(LocalDateTime::time_text, (&now,), time),
        call_ensures(LocalDateTime::date_text, (&now,), date),
        call_ensures(LocalDateTime::zone_text, (&now,), zone),
    ensures
        final(c)@ == old(c)@ && *final(p) == *old(p),
        name == seq!['G', 'L'] ==> (reply matches Some(told) && told@ == time@ + seq!['#']),
        name == seq!['G', 'C'] ==> (reply matches Some(told) && told@ == date@ + seq!['#']),
        name == seq!['G', 'G'] ==> (reply matches Some(told) && told@ == zone@ + seq!['#']),
{
    let t = data@;
    let none = Seq::<char>::empty();
    lemma_command_names();
    assert(seq!['G', 'C'][1] == 'C' && seq!['G', 'L'][1] == 'L' && seq!['G', 'G'][1] == 'G');
    assert(t =~= seq![':'] + name + none + seq!['#']);
    lemma_command_text(old(c)@, *old(p), name, none, t, precess);
    assert(old(c)@.datetime.time_value().push('#') =~= time@ + seq!['#']);
    assert(old(c)@.datetime.date_value().push('#') =~= date@ + seq!['#']);
    assert(old(c)@.datetime.zone_value().push('#') =~= zone@ + seq!['#']);
}

/// Bytes are answered as the text is that they encode, and a hash mark in front of them makes no
/// difference.
pub proof fn law_bytes_are_read_as_text<F: Fn(i64, i64, i32, i32) -> (i64, i64)>(
    c: &mut Lx200Controller,
    p: &mut TelescopePosition,
    buffer: &[u8],
    precess: F,
    reply: Option<String>,
    d: &mut Lx200Controller,
    q: &mut TelescopePosition,
    data: &str,
    told: Option<String>,
)
    requires
        old(c)@ == old(d)@ && *old(p) == *old(q),
        data@.len() > 0,
        buffer@ == seq![35u8] + encode_utf8(data@) || (buffer@ == encode_utf8(data@) && buffer@[0]
            != 35),
        call_ensures(Lx200Controller::process_input::<F>, (c, buffer, p, &precess), reply),
        call_ensures(Lx200Controller::process_text::<F>, (d, data, q, &precess), told),
    ensures
        final(c)@ == final(d)@ && *final(p) == *final(q),
        reply is Some <==> told is Some,
        reply matches Some(answer) ==> answer@ == told->0@,
{
    encode_utf8_valid_utf8(data@);
    encode_utf8_decode_utf8(data@);
    if buffer@ == seq![35u8] + encode_utf8(data@) {
        assert(buffer@.skip(1) =~= encode_utf8(data@));
    }
    assert(text_of(without_leading_hash(buffer@)) == data@);
}

/// Degrees, minutes and seconds add up, and a minus sign in front of the degrees, of zero too, is
/// that of the whole. A place has no seconds.
pub proof fn law_angles_add_up(
    d: &str,
    m: &str,
    s: &str,
    degrees: i32,
    minutes: Option<i32>,
    seconds: Option<i32>,
    angle: Option<i64>,
    place: Option<i64>,
)
    requires
        degrees > i32::MIN,
        call_ensures(text::parse_i32, (d,), Some(degrees)),
        call_ensures(text::parse_i32, (m,), minutes),
        call_ensures(text::parse_i32, (s,), seconds),
        call_ensures(Lx200Controller::parse_coordinates, (d, m, s), angle),
        call_ensures(Lx200Controller::parse_location, (d, m), place),
    ensures
        angle is Some <==> minutes is Some && seconds is Some,
        place is Some <==> minutes is Some,
        ({
            let whole = if degrees < 0 {
                -degrees
            } else {
                degrees as int
            };
            &&& angle matches Some(a) ==> (if d@[0] == '-' {
                -a
            } else {
                a as int
            }) == 3_600_000_000 * whole + 60_000_000 * minutes->0 + 1_000_000 * seconds->0
            &&& place matches Some(a) ==> (if d@[0] == '-' {
                -a
            } else {
                a as int
            }) == 3_600_000_000 * whole + 60_000_000 * minutes->0
        }),
{
    assert(seq!['0'].drop_last() =~= Seq::<char>::empty());
    assert(text::digits_value(seq!['0'].drop_last()) == 0);
    assert(text::digits_value(seq!['0']) == 0);
    assert(text::i32_value(seq!['0']) == Some(0i32));
}

/// What a client is told of when the telescope's program was made.
pub proof fn law_client_asks_when_this_was_made<F: Fn(i64, i64, i32, i32) -> (i64, i64)>(
    c: &mut Lx200Controller,
    p: &mut TelescopePosition,
    data: &str,
    precess: F,
    reply: Option<String>,
    name: Seq<char>,
)
    requires
        knows_ascii_letters(),
        call_ensures(Lx200Controller::process_text::<F>, (c, data, p, &precess), reply),
        data@ == seq![':'] + name + seq!['#'],
        name == seq!['G', 'V', 'D'] || name == seq!['G', 'V', 'T'],
    ensures
        final(c)@ == old(c)@ && *final(p) == *old(p),
        name == seq!['G', 'V', 'D'] ==> (reply matches Some(told) && told@ == "Nov 14 2025#"@),
        name == seq!['G', 'V', 'T'] ==> (reply matches Some(told) && told@ == "23:00:00#"@),
{
    let t = data@;
    let none = Seq::<char>::empty();
    lemma_command_names();
    assert(seq!['G', 'V', 'D'][2] == 'D' && seq!['G', 'V', 'T'][2] == 'T');
    assert(t =~= seq![':'] + name + none + seq!['#']);
    lemma_command_text(old(c)@, *old(p), name, none, t, precess);
    reveal_strlit("Nov 14 2025#");
    reveal_strlit("23:00:00#");
}

} // verus!
