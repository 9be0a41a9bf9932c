pub mod text;
pub mod text_facts;
pub mod hosts;
pub mod hosts_round_trip;
pub mod keymap;
pub mod accents;
pub mod accent_monitor;
pub mod keysyms;
pub mod ruler;
pub mod numbers;
pub mod peek;
pub mod shortcuts;
pub mod resizer;
pub mod light_switch;
pub mod mouse;
pub mod modules;
pub mod settings_types;
pub mod module_confs;
pub mod settings;
pub mod hosts_app;
pub mod dependencies;
pub mod key_tests;
