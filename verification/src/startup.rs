//! What is decided when the server starts, and what it reads from files.

use vstd::prelude::*;
use vstd::string::*;

use crate::astro_util::ImageCoord;
use crate::cedar::{FeatureLevel, OperatingMode};
use crate::operation_settings::{compute_binning, Action, SettingsState};
use crate::preferences::{
    initial_preferences, load_preferences, validate_preferences, Interval, Preferences,
};
use crate::text;
use crate::text::{
    chars_of, contains_text, eq_ignore_ascii_case, same_text, starts_with_text, string_of,
    trim_matches,
};

verus! {

broadcast use vstd::string::group_string_axioms;

/// The kinds of camera interface that the command line can name.
#[derive(Clone, Copy, Debug, PartialEq, Eq, Structural)]
pub enum CameraInterface {
    /// Cameras by ZWO.
    Asi,
    /// Cameras for the Raspberry Pi.
    Rpi,
}

/// The value of a command line argument is not one that it can have.
#[derive(Clone, Copy, Debug, PartialEq, Eq, Structural)]
pub struct InvalidArgument;

/// The camera interface that the command line names, if it names one.
pub fn parse_camera_interface(arg: &str) -> (r: Result<Option<CameraInterface>, InvalidArgument>)
    ensures
        r == (if arg@ == ""@ {
            Ok::<Option<CameraInterface>, InvalidArgument>(None)
        } else if arg@ == "asi"@ {
            Ok(Some(CameraInterface::Asi))
        } else if arg@ == "rpi"@ {
            Ok(Some(CameraInterface::Rpi))
        } else {
            Err(InvalidArgument)
        }),
{
    if same_text(arg, "") {
        Ok(None)
    } else if same_text(arg, "asi") {
        Ok(Some(CameraInterface::Asi))
    } else if same_text(arg, "rpi") {
        Ok(Some(CameraInterface::Rpi))
    } else {
        Err(InvalidArgument)
    }
}

/// Checks the binning that the command line names: one, two or four pixels across.
pub fn check_binning(arg: Option<u32>) -> (r: Result<Option<u32>, InvalidArgument>)
    ensures
        r == (match arg {
            Some(binning) => if binning == 1 || binning == 2 || binning == 4 {
                Ok::<Option<u32>, InvalidArgument>(arg)
            } else {
                Err(InvalidArgument)
            },
            None => Ok(arg),
        }),
{
    match arg {
        Some(binning) => if binning == 1 || binning == 2 || binning == 4 {
            Ok(arg)
        } else {
            Err(InvalidArgument)
        },
        None => Ok(arg),
    }
}

/// Whether a camera is one of the large model's.
pub open spec fn is_plus_camera(model: Seq<char>) -> bool {
    model == "imx296"@ || model == "imx290"@
}

/// Whether a camera is one of the large model's.
fn is_plus_model(model: &str) -> (r: bool)
    ensures
        r == is_plus_camera(model@),
{
    same_text(model, "imx296") || same_text(model, "imx290")
}

/// What a product offers, by its name and the camera that is attached.
pub open spec fn level_of(product: Seq<char>, camera: Option<Seq<char>>) -> FeatureLevel {
    if text::same_but_case(product, "Cedar-Box"@) {
        FeatureLevel::Diy
    } else {
        match camera {
            Some(model) => if is_plus_camera(model) {
                FeatureLevel::Plus
            } else {
                FeatureLevel::Basic
            },
            None => FeatureLevel::Diy,
        }
    }
}

/// Decides what the product offers.
pub fn feature_level(product: &str, camera: Option<&str>) -> (level: FeatureLevel)
    ensures
        level == level_of(
            product@,
            match camera {
                Some(model) => Some(model@),
                None => None,
            },
        ),
{
    if eq_ignore_ascii_case(product, "Cedar-Box") {
        return FeatureLevel::Diy;
    }
    match camera {
        Some(model) => if is_plus_model(model) {
            FeatureLevel::Plus
        } else {
            FeatureLevel::Basic
        },
        None => FeatureLevel::Diy,
    }
}

/// Whether rows need to be normalized: with one of the large model's cameras on the smallest
/// computer.
pub fn needs_row_normalization(camera: Option<&str>, processor: &str) -> (r: bool)
    ensures
        r == (match camera {
            Some(model) => is_plus_camera(model@) && text::holds(
                processor@,
                "Raspberry Pi Zero 2 W"@,
            ),
            None => false,
        }),
{
    match camera {
        Some(model) => is_plus_model(model) && contains_text(processor, "Raspberry Pi Zero 2 W"),
        None => false,
    }
}

/// Which camera to use.
#[derive(Clone, Copy, Debug, PartialEq, Eq, Structural)]
pub enum CameraChoice {
    /// The image that the command line names.
    TestImage,
    /// The camera that is attached.
    Attached,
    /// A uniform gray image.
    Gray { width: u32, height: u32, level: u8 },
}

/// Decides which camera to use.
pub fn get_camera(has_attached_camera: bool, has_test_image: bool) -> (choice: CameraChoice)
    ensures
        choice == (if has_test_image {
            CameraChoice::TestImage
        } else if has_attached_camera {
            CameraChoice::Attached
        } else {
            CameraChoice::Gray { width: 800, height: 600, level: 16 }
        }),
{
    if has_test_image {
        return CameraChoice::TestImage;
    }
    if has_attached_camera {
        return CameraChoice::Attached;
    }
    CameraChoice::Gray { width: 800, height: 600, level: 16 }
}

/// Decides which camera the server describes to its clients, if any.
pub fn described_camera(has_attached_camera: bool, has_test_image: bool) -> (choice: Option<
    CameraChoice,
>)
    ensures
        choice == (if has_test_image {
            Some(CameraChoice::TestImage)
        } else if has_attached_camera {
            Some(CameraChoice::Attached)
        } else {
            None
        }),
{
    if has_test_image {
        Some(CameraChoice::TestImage)
    } else if has_attached_camera {
        Some(CameraChoice::Attached)
    } else {
        None
    }
}

/// Whether preferences are those that the server starts with: the initial ones, with those of the
/// saved file in their place, within the limits of the camera and of the feature level.
pub open spec fn is_prepared(
    prefs: Preferences,
    level: FeatureLevel,
    has_cedar_sky: bool,
    invert_camera: bool,
    file: Option<Preferences>,
    width: int,
    height: int,
) -> bool {
    exists|initial: Preferences, loaded: Preferences|
        {
            &&& #[trigger] crate::preferences::is_initial(
                initial,
                level,
                has_cedar_sky,
                invert_camera,
            )
            &&& match file {
                Some(file) => crate::preferences::is_loaded(loaded, initial, file),
                None => loaded == initial,
            }
            &&& #[trigger] crate::preferences::is_validated(prefs, loaded, width, height, level)
        }
}

/// Prepares the preferences that the server starts with. There is no file where it could not be
/// read.
pub fn prepare_preferences(
    level: FeatureLevel,
    has_cedar_sky: bool,
    invert_camera: bool,
    file: Option<Preferences>,
    width: i32,
    height: i32,
) -> (prefs: Preferences)
    requires
        file matches Some(file) ==> (file.catalog_entry_match matches Some(wanted)
            ==> wanted.faintest_magnitude is Some),
    ensures
        is_prepared(
            prefs,
            level,
            has_cedar_sky,
            invert_camera,
            file,
            width as int,
            height as int,
        ),
        prefs.update_interval is Some,
        prefs.invert_camera is Some,
{
    let initial: Preferences = initial_preferences(level, has_cedar_sky, invert_camera);
    let ghost first = initial;
    let loaded: Preferences = match file {
        Some(file) => load_preferences(initial, file),
        None => initial,
    };
    let ghost second = loaded;
    let prefs: Preferences = validate_preferences(loaded, width, height, level);
    assert(crate::preferences::is_initial(first, level, has_cedar_sky, invert_camera));
    assert(crate::preferences::is_validated(prefs, second, width as int, height as int, level));
    prefs
}

/// The settings that the server starts with: setup mode, where it helps to focus.
pub open spec fn initial_settings(update_interval: Interval) -> SettingsState {
    SettingsState {
        operating_mode: OperatingMode::Setup,
        focus_assist_mode: true,
        daylight_mode: false,
        calibrating: false,
        update_interval,
    }
}

/// Plans what is done with the camera and the engines when the server starts, in order, and the
/// settings that it starts with.
pub fn plan_startup(
    update_interval: Interval,
    width: u32,
    height: u32,
    args_binning: Option<u32>,
    args_display_sampling: Option<bool>,
    boresight: Option<ImageCoord>,
) -> (r: (SettingsState, Vec<Action>))
    requires
        width * height <= u32::MAX,
    ensures
        r.0 == initial_settings(update_interval),
        r.1@ == ({
            let binning = crate::operation_settings::binning_for(
                width as int,
                height as int,
                args_binning,
                args_display_sampling,
            );
            seq![
                Action::SetPreCalibrationDefaults,
                Action::SetBinning { binning: binning.0, display_sampling: binning.1 },
                Action::SetFocusMode(true),
                Action::SetDaylightMode(false),
                Action::SetCatalogEntryMatch,
                Action::SetAlignMode(true),
            ] + (match boresight {
                Some(boresight) => seq![Action::SetBoresight(boresight)],
                None => seq![],
            })
        }),
{
    let state = SettingsState {
        operating_mode: OperatingMode::Setup,
        focus_assist_mode: true,
        daylight_mode: false,
        calibrating: false,
        update_interval,
    };
    let (binning, display_sampling) = compute_binning(
        width,
        height,
        args_binning,
        args_display_sampling,
    );
    let mut actions: Vec<Action> = Vec::new();
    actions.push(Action::SetPreCalibrationDefaults);
    actions.push(Action::SetBinning { binning, display_sampling });
    actions.push(Action::SetFocusMode(state.focus_assist_mode));
    actions.push(Action::SetDaylightMode(state.daylight_mode));
    actions.push(Action::SetCatalogEntryMatch);
    actions.push(Action::SetAlignMode(true));
    if let Some(boresight) = boresight {
        actions.push(Action::SetBoresight(boresight));
    }
    assert(actions@ =~= seq![
        Action::SetPreCalibrationDefaults,
        Action::SetBinning { binning, display_sampling },
        Action::SetFocusMode(true),
        Action::SetDaylightMode(false),
        Action::SetCatalogEntryMatch,
        Action::SetAlignMode(true),
    ] + (match boresight {
        Some(boresight) => seq![Action::SetBoresight(boresight)],
        None => seq![],
    }));
    (state, actions)
}

/// A line of a text that names a file's system in words.
pub open spec fn is_pretty_name(line: Seq<char>) -> bool {
    text::holds_at(line, "PRETTY_NAME="@, 0)
}

/// The first line that names the system, if there is one.
pub open spec fn first_pretty_name(lines: Seq<Seq<char>>) -> Option<Seq<char>>
    decreases lines.len(),
{
    if lines.len() == 0 {
        None
    } else if is_pretty_name(lines[0]) {
        Some(lines[0])
    } else {
        first_pretty_name(lines.skip(1))
    }
}

/// What stands between the first equals sign of a text and the second, or the end.
pub open spec fn second_field(line: Seq<char>) -> Seq<char> {
    let rest = line.skip(crate::lx200_server::first_index(line, '=') + 1);
    rest.take(crate::lx200_server::first_index(rest, '='))
}

/// The name of the operating system, from the lines of its release file: what the first
/// `PRETTY_NAME` is set to, without quotes, or nothing.
pub open spec fn os_name(lines: Seq<Seq<char>>) -> Seq<char> {
    match first_pretty_name(lines) {
        Some(line) => text::trimmed(second_field(line), '"'),
        None => Seq::empty(),
    }
}

/// Finds a character in a text from an index on, or gives the length where there is none.
fn find_char(v: &Vec<char>, start: usize, ch: char) -> (at: usize)
    requires
        start <= v@.len(),
    ensures
        start <= at <= v@.len(),
        at - start == crate::lx200_server::first_index(v@.skip(start as int), ch),
{
    let mut at: usize = start;
    while at < v.len() && v[at] != ch
        invariant
            start <= at <= v@.len(),
            forall|j: int| start <= j < at ==> v@[j] != ch,
        decreases v@.len() - at,
    {
        at = at + 1;
    }
    proof {
        crate::lx200_server::lemma_first_index(v@.skip(start as int), ch, at - start);
    }
    at
}

/// Reads the name of the operating system from the lines of its release file.
pub fn parse_os_version(lines: &Vec<String>) -> (name: String)
    ensures
        name@ == os_name(crate::text::views(lines@)),
{
    let ghost all = crate::text::views(lines@);
    let mut i: usize = 0;
    assert(all.skip(0) =~= all);
    while i < lines.len()
        invariant
            i <= lines@.len(),
            all == crate::text::views(lines@),
            first_pretty_name(all) == first_pretty_name(all.skip(i as int)),
        decreases lines@.len() - i,
    {
        let line: &str = lines[i].as_str();
        assert(all.skip(i as int)[0] == line@);
        if starts_with_text(line, "PRETTY_NAME=") {
            let v: Vec<char> = chars_of(line);
            proof {
                lemma_pretty_name_has_equals(line@);
                crate::lx200_server::lemma_first_index_bounds(line@, '=');
            }
            assert(v@.skip(0) =~= line@);
            let equals: usize = find_char(&v, 0, '=');
            assert(equals == crate::lx200_server::first_index(line@, '='));
            assert(equals < v@.len());
            let start: usize = equals + 1;
            let end: usize = find_char(&v, start, '=');
            let field: String = string_of(&v, start, end);
            assert(field@ =~= second_field(line@));
            return trim_matches(field.as_str(), '"');
        }
        assert(all.skip(i as int).skip(1) =~= all.skip(i + 1));
        i = i + 1;
    }
    String::new()
}

/// A line that names the system holds an equals sign.
proof fn lemma_pretty_name_has_equals(line: Seq<char>)
    requires
        is_pretty_name(line),
    ensures
        crate::lx200_server::first_index(line, '=') < line.len(),
{
    reveal_strlit("PRETTY_NAME=");
    let name = "PRETTY_NAME="@;
    assert(name.len() == 12 && name[11] == '=');
    assert(line.subrange(0, 12)[11] == line[11]);
    crate::lx200_server::lemma_first_index_bounds(line, '=');
    if crate::lx200_server::first_index(line, '=') == line.len() {
        lemma_absent(line, '=', 11);
    }
}

/// Where the first index of a character is the length, the character is nowhere.
proof fn lemma_absent(s: Seq<char>, ch: char, at: int)
    requires
        crate::lx200_server::first_index(s, ch) == s.len(),
        0 <= at < s.len(),
    ensures
        s[at] != ch,
    decreases s.len(),
{
    if at > 0 {
        lemma_absent(s.skip(1), ch, at - 1);
    }
}

/// The index of the file that was changed last, the first of those where several are equal.
pub open spec fn is_most_recent(times: Seq<u64>, at: int) -> bool {
    &&& 0 <= at < times.len()
    &&& forall|j: int| 0 <= j < times.len() ==> #[trigger] times[j] <= times[at]
    &&& forall|j: int| 0 <= j < at ==> #[trigger] times[j] < times[at]
}

/// Finds the file that was changed last, by the times of change in seconds.
pub fn find_most_recent_file(modified_times: &Vec<u64>) -> (found: Option<usize>)
    ensures
        found is None <==> modified_times@.len() == 0,
        found matches Some(at) ==> is_most_recent(modified_times@, at as int),
{
    if modified_times.len() == 0 {
        return None;
    }
    let mut at: usize = 0;
    let mut i: usize = 1;
    while i < modified_times.len()
        invariant
            at < i <= modified_times@.len(),
            forall|j: int| 0 <= j < i ==> #[trigger] modified_times@[j] <= modified_times@[at as int],
            forall|j: int| 0 <= j < at ==> #[trigger] modified_times@[j] < modified_times@[at as int],
        decreases modified_times@.len() - i,
    {
        if modified_times[i] > modified_times[at] {
            at = i;
        }
        i = i + 1;
    }
    Some(at)
}

/// How many bytes to read from the end of a log of a length. A negative number of bytes asks for
/// the whole.
pub fn log_bytes_to_read(length: u64, wanted: i32) -> (count: u64)
    ensures
        count == (if wanted < 0 || length < wanted {
            length as int
        } else {
            wanted as int
        }),
{
    if wanted < 0 || length < wanted as u64 {
        length
    } else {
        wanted as u64
    }
}

/// The whole lines of the end of a log: what follows the first line break, or all of it where
/// there is none.
pub fn trim_log_tail(content: &str) -> (lines: String)
    ensures
        lines@ == ({
            let at = crate::lx200_server::first_index(content@, '\n');
            if at < content@.len() {
                content@.skip(at + 1)
            } else {
                content@
            }
        }),
{
    let v: Vec<char> = chars_of(content);
    assert(v@.skip(0) =~= content@);
    let at: usize = find_char(&v, 0, '\n');
    if at < v.len() {
        assert(content@.subrange(at + 1, content@.len() as int) =~= content@.skip(at + 1));
        string_of(&v, at + 1, v.len())
    } else {
        content.to_owned()
    }
}

/// Whether a file is a demonstration image, by its extension.
pub fn is_demo_image(extension: &str) -> (r: bool)
    ensures
        r == (extension@ == "jpg"@ || extension@ == "bmp"@),
{
    same_text(extension, "jpg") || same_text(extension, "bmp")
}

/// Of the command line, no interface, one of the two, or a binning by one, two or four is taken as
/// it is, and everything else refused.
pub proof fn law_arguments_are_checked(
    arg: &str,
    named: Result<Option<CameraInterface>, InvalidArgument>,
    binning: u32,
    checked: Result<Option<u32>, InvalidArgument>,
    unnamed: Result<Option<u32>, InvalidArgument>,
)
    requires
        call_ensures(parse_camera_interface, (arg,), named),
        call_ensures(check_binning, (Some(binning),), checked),
        call_ensures(check_binning, (None::<u32>,), unnamed),
    ensures
        named == Ok::<Option<CameraInterface>, InvalidArgument>(None) <==> arg@.len() == 0,
        named == Ok::<Option<CameraInterface>, InvalidArgument>(Some(CameraInterface::Asi)) <==> arg@
            == seq!['a', 's', 'i'],
        named == Ok::<Option<CameraInterface>, InvalidArgument>(Some(CameraInterface::Rpi)) <==> arg@
            == seq!['r', 'p', 'i'],
        checked is Ok <==> binning == 1 || binning == 2 || binning == 4,
        checked matches Ok(kept) ==> kept == Some(binning),
        unnamed == Ok::<Option<u32>, InvalidArgument>(None),
{
    reveal_strlit("");
    reveal_strlit("asi");
    reveal_strlit("rpi");
    assert("asi"@ =~= seq!['a', 's', 'i']);
    assert("rpi"@ =~= seq!['r', 'p', 'i']);
    if arg@.len() == 0 {
        assert(arg@ =~= ""@);
    }
}

/// Where no camera of a known product is attached, everything is offered; a box offers everything
/// whatever is attached. Else it goes by the camera.
pub proof fn law_level_goes_by_the_camera(
    product: &str,
    model: &str,
    without: FeatureLevel,
    with: FeatureLevel,
)
    requires
        call_ensures(feature_level, (product, None::<&str>), without),
        call_ensures(feature_level, (product, Some(model)), with),
    ensures
        without == FeatureLevel::Diy,
        product@ == "Cedar-Box"@ ==> with == FeatureLevel::Diy,
        product@.len() != 9 && (model@ == "imx296"@ || model@ == "imx290"@) ==> with
            == FeatureLevel::Plus,
        product@.len() != 9 && model@ != "imx296"@ && model@ != "imx290"@ ==> with
            == FeatureLevel::Basic,
        with == FeatureLevel::Plus ==> model@ == "imx296"@ || model@ == "imx290"@,
        with == FeatureLevel::Basic ==> model@ != "imx296"@ && model@ != "imx290"@,
{
    reveal_strlit("Cedar-Box");
}

/// A test image goes before an attached camera, and that before a gray image, which the server does
/// not describe.
pub proof fn law_camera_is_chosen(
    attached: bool,
    test: bool,
    choice: CameraChoice,
    described: Option<CameraChoice>,
)
    requires
        call_ensures(get_camera, (attached, test), choice),
        call_ensures(described_camera, (attached, test), described),
    ensures
        choice == CameraChoice::TestImage <==> test,
        choice == CameraChoice::Attached <==> attached && !test,
        choice is Gray ==> choice == (CameraChoice::Gray { width: 800, height: 600, level: 16 }),
        described is None <==> choice is Gray,
        described matches Some(same) ==> same == choice,
{
}

/// The server starts in setup mode, helping to focus, at night and not calibrating, and the camera
/// and the engines are told so. A boresight that is known is set.
pub proof fn law_server_starts_focusing(
    interval: Interval,
    width: u32,
    height: u32,
    boresight: ImageCoord,
    with: (SettingsState, Vec<Action>),
    without: (SettingsState, Vec<Action>),
    binned: (u32, bool),
)
    requires
        width * height <= u32::MAX,
        call_ensures(
            plan_startup,
            (interval, width, height, None::<u32>, None::<bool>, Some(boresight)),
            with,
        ),
        call_ensures(
            plan_startup,
            (interval, width, height, None::<u32>, None::<bool>, None::<ImageCoord>),
            without,
        ),
        call_ensures(compute_binning, (width, height, None::<u32>, None::<bool>), binned),
    ensures
        with.0 == without.0,
        with.0.operating_mode == OperatingMode::Setup && with.0.focus_assist_mode
            && !with.0.daylight_mode && !with.0.calibrating && with.0.update_interval == interval,
        with.1@ == without.1@.push(Action::SetBoresight(boresight)),
        without.1@.len() == 6,
        without.1@[0] == Action::SetPreCalibrationDefaults,
        without.1@.contains(
            Action::SetBinning { binning: binned.0, display_sampling: binned.1 },
        ),
        without.1@.contains(Action::SetFocusMode(true)),
        without.1@.contains(Action::SetDaylightMode(false)),
        without.1@.contains(Action::SetCatalogEntryMatch),
        without.1@.contains(Action::SetAlignMode(true)),
{
    let actions = without.1@;
    assert(actions[1] == (Action::SetBinning { binning: binned.0, display_sampling: binned.1 }));
    assert(actions[2] == Action::SetFocusMode(true));
    assert(actions[3] == Action::SetDaylightMode(false));
    assert(actions[4] == Action::SetCatalogEntryMatch);
    assert(actions[5] == Action::SetAlignMode(true));
    assert(with.1@ =~= actions.push(Action::SetBoresight(boresight)));
}

/// The preferences that the server starts with are those to start with where there is no file, and
/// otherwise what the file has, both within the limits of the feature level.
pub proof fn law_preferences_are_prepared(
    level: FeatureLevel,
    has_cedar_sky: bool,
    invert_camera: bool,
    file: Preferences,
    width: i32,
    height: i32,
    without: Preferences,
    with: Preferences,
    initial: Preferences,
)
    requires
        call_ensures(
            prepare_preferences,
            (level, has_cedar_sky, invert_camera, None::<Preferences>, width, height),
            without,
        ),
        call_ensures(
            prepare_preferences,
            (level, has_cedar_sky, invert_camera, Some(file), width, height),
            with,
        ),
        call_ensures(initial_preferences, (level, has_cedar_sky, invert_camera), initial),
    ensures
        without.update_interval == initial.update_interval && without.mount_type
            == initial.mount_type && without.invert_camera == Some(invert_camera)
            && without.observer_location is None && without.boresight_pixel is None,
        with.observer_location == file.observer_location,
        file.night_vision_theme is Some ==> with.night_vision_theme == file.night_vision_theme,
        file.night_vision_theme is None ==> with.night_vision_theme == initial.night_vision_theme,
        file.invert_camera is Some ==> with.invert_camera == file.invert_camera,
        file.invert_camera is None ==> with.invert_camera == Some(invert_camera),
        file.update_interval matches Some(wanted) ==> (wanted.seconds != 0
            ==> with.update_interval == Some(wanted)),
        level == FeatureLevel::Basic ==> with.mount_type == Some(crate::cedar::MountType::AltAz),
        level != FeatureLevel::Basic && file.mount_type is Some ==> with.mount_type
            == file.mount_type,
        with.update_interval matches Some(got) && (level == FeatureLevel::Basic && got.seconds == 0
            ==> got.nanos >= 200_000_000),
{
}

/// Rows are normalized only for the camera of the large model on the smallest computer.
pub proof fn law_rows_are_normalized_where_needed(
    model: &str,
    processor: &str,
    with: bool,
    without: bool,
)
    requires
        call_ensures(needs_row_normalization, (Some(model), processor), with),
        call_ensures(needs_row_normalization, (None::<&str>, processor), without),
    ensures
        !without,
        with ==> model@ == "imx296"@ || model@ == "imx290"@,
        with ==> processor@.len() >= 21,
        processor@ == "Raspberry Pi Zero 2 W"@ && model@ == "imx296"@ ==> with,
{
    reveal_strlit("Raspberry Pi Zero 2 W");
    if processor@ == "Raspberry Pi Zero 2 W"@ {
        assert(processor@.subrange(0, processor@.len() as int) =~= processor@);
        assert(text::holds_at(processor@, "Raspberry Pi Zero 2 W"@, 0));
    }
}

/// As much of a log is read as is wanted, up to all of it; a negative number asks for all of it.
pub proof fn law_log_is_read_from_its_end(length: u64, wanted: i32, count: u64)
    requires
        call_ensures(log_bytes_to_read, (length, wanted), count),
    ensures
        count <= length,
        wanted < 0 ==> count == length,
        wanted >= 0 ==> count <= wanted,
        count < length ==> count == wanted,
{
}

/// A log that starts within a line loses that line and nothing else; one without a line break
/// stays.
pub proof fn law_log_starts_with_a_whole_line(
    content: &str,
    lines: String,
    head: Seq<char>,
    tail: Seq<char>,
)
    requires
        call_ensures(trim_log_tail, (content,), lines),
        !head.contains('\n'),
        content@ == head + seq!['\n'] + tail || content@ == head,
    ensures
        content@ == head ==> lines@ == content@,
        content@ == head + seq!['\n'] + tail ==> lines@ == tail,
{
    if content@ == head {
        if crate::lx200_server::first_index(content@, '\n') < content@.len() {
            crate::lx200_server::lemma_first_index_bounds(content@, '\n');
        }
        assert forall|j: int| 0 <= j < content@.len() implies content@[j] != '\n' by {
            assert(head.contains(head[j]));
        }
        crate::lx200_server::lemma_first_index(content@, '\n', content@.len() as int);
    } else {
        let at = head.len() as int;
        assert forall|j: int| 0 <= j < at implies content@[j] != '\n' by {
            assert(head.contains(head[j]));
            assert(content@[j] == head[j]);
        }
        assert(content@[at] == '\n');
        crate::lx200_server::lemma_first_index(content@, '\n', at);
        assert(content@.skip(at + 1) =~= tail);
    }
}

/// The file that was changed last is no older than any other, and there is one exactly where there
/// is a file. An image by extension is one of two kinds.
pub proof fn law_most_recent_file(
    times: Vec<u64>,
    found: Option<usize>,
    i: int,
    extension: &str,
    demo: bool,
)
    requires
        0 <= i < times@.len(),
        call_ensures(find_most_recent_file, (&times,), found),
        call_ensures(is_demo_image, (extension,), demo),
    ensures
        found matches Some(at) && at < times@.len() && times@[i] <= times@[at as int] && (times@[i]
            == times@[at as int] ==> at <= i),
        demo <==> extension@ == seq!['j', 'p', 'g'] || extension@ == seq!['b', 'm', 'p'],
{
    reveal_strlit("jpg");
    reveal_strlit("bmp");
    assert("jpg"@ =~= seq!['j', 'p', 'g']);
    assert("bmp"@ =~= seq!['b', 'm', 'p']);
}

/// A release file that names the system once, quoted, is read as that name.
pub proof fn law_system_is_named(
    lines: Vec<String>,
    before: int,
    name: Seq<char>,
    read: String,
)
    requires
        0 <= before < lines@.len(),
        forall|i: int|
            0 <= i < before ==> !text::holds_at(#[trigger] lines@[i]@, "PRETTY_NAME="@, 0),
        name.len() > 0,
        !name.contains('"') && !name.contains('='),
        lines@[before]@ == "PRETTY_NAME="@ + seq!['"'] + name + seq!['"'],
        call_ensures(parse_os_version, (&lines,), read),
    ensures
        read@ == name,
{
    reveal_strlit("PRETTY_NAME=");
    let all = crate::text::views(lines@);
    let line = lines@[before]@;
    assert(all[before] == line);
    assert(line.subrange(0, 12) =~= "PRETTY_NAME="@);
    lemma_first_pretty_name(all, before);
    crate::lx200_server::lemma_first_index(line, '=', 11);
    let rest = line.skip(12);
    let quoted = seq!['"'] + name + seq!['"'];
    assert(rest =~= quoted);
    assert forall|j: int| 0 <= j < rest.len() implies rest[j] != '=' by {
        if 0 < j < rest.len() - 1 {
            assert(name.contains(name[j - 1]));
            assert(rest[j] == name[j - 1]);
        }
    }
    crate::lx200_server::lemma_first_index(rest, '=', rest.len() as int);
    assert(rest.take(rest.len() as int) =~= quoted);
    assert(quoted[1] == name[0] && name.contains(name[0]));
    assert(quoted[quoted.len() - 2] == name[name.len() - 1] && name.contains(name[name.len() - 1]));
    text::lemma_trimmed(quoted, '"', 1, quoted.len() - 1);
    assert(quoted.subrange(1, quoted.len() - 1) =~= name);
}

/// The first line that names the system is the first that does.
proof fn lemma_first_pretty_name(lines: Seq<Seq<char>>, at: int)
    requires
        0 <= at < lines.len(),
        is_pretty_name(lines[at]),
        forall|i: int| 0 <= i < at ==> !is_pretty_name(#[trigger] lines[i]),
    ensures
        first_pretty_name(lines) == Some(lines[at]),
    decreases at,
{
    if at > 0 {
        lemma_first_pretty_name(lines.skip(1), at - 1);
    }
}

} // verus!
