pub mod hash;
pub mod headers;
pub mod locale_csv;
pub mod placeholders;
pub mod tables;
pub mod validator;

pub use tables::{
    locales_by_name, pairs_map, tables_map, LocaleTable, Manifest, PanelRow, PromptRow, TablePaths,
};
pub use validator::{
    action_resolvers, event_resolvers, registered_action_resolvers, registered_event_resolvers,
    validate_config, ActionFacts, ConfigFacts, ErrorView, EventFacts, ResourceFacts, StatFacts,
    ValidationError,
};
pub use headers::{check_table_headers, csv_header, TableHeaders};
pub use hash::{config_hash, embedded_file_text, stable_config_hash_from_texts, text_for};
pub use locale_csv::{normalize_locale_key, read_locale_csv_text};
pub use placeholders::{declared_names_of, placeholder_names_of};
