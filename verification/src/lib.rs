//! The verified core of a telescope plate-solving server.

pub mod activity_led;
pub mod astro_util;
pub mod bonding_helper;
pub mod calibration;
pub mod calibrator;
pub mod cedar;
pub mod cedar_server;
pub mod cedar_sky_trait;
pub mod corpus;
pub mod cpu_stats;
pub mod date_time;
pub mod detect_engine;
pub mod harness;
pub mod image_utils;
pub mod imu6050;
pub mod imu_trait;
pub mod lx200;
pub mod lx200_server;
pub mod motion_estimator;
pub mod multiplex;
pub mod next_frame;
pub mod numbers;
pub mod operation_settings;
pub mod polling;
pub mod position_reporter;
pub mod preferences;
pub mod rate_estimator;
pub mod report;
pub mod serve_engine;
pub mod solve_engine;
pub mod solver_trait;
pub mod startup;
pub mod text;
pub mod thread_name;
pub mod units;
pub mod wifi_trait;
