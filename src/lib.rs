//! Sequential import chaining: a token-recovery service built on CSS
//! `@import` chains, with a shared token registry, a long-poll wait queue and
//! the payload renderer.
mod escape;
mod registry;
mod service;
mod template;
mod text;
mod urls;
mod waiting;

pub use text::{chars_of, decimal_of, parse_u32, string_of};
pub use escape::{
    css_special, escape_char, escape_chars, escape_for_css, escaped, has_special,
    lemma_escape_not_idempotent, lemma_escape_special_char,
};
pub use urls::{
    base_parses, built_url, callback_url, craft_callback_url, craft_polling_url, param_of,
    parse_query_params, polling_url, request_query, same_text, BaseUrl, QueryParams,
};
pub use template::{
    callback_marker, fragment, fragments, joined, lemma_one_fragment_per_char, process_template,
    rendered, replace_chars, replaced, token_marker,
};
pub use registry::{
    apply_upserts, current_token, keys_unique, map_of, resolved, token_of, TokenRegistry,
};
pub use waiting::{
    lemma_fresh_registry_absent, lemma_last_write_wins, lemma_poll_resolves_iff_long_enough_upsert,
    lemma_wake_resolves_exactly, Engine, WaitQueue,
};
pub use service::{
    bad_request_text, decide, missing_len_text, query_param, query_u32, recorded_reply, recorded_text,
    resolved_reply, route, route_of, staging_body, staging_line, staging_reply, Action, Config,
    ConfigError, Reply, Route,
};
