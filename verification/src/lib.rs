use vstd::prelude::*;

pub mod errors;
pub mod json;
pub mod query;
pub mod request;
pub mod schema;
pub mod surface;
pub mod template;
pub mod text;
pub mod url;

pub use errors::CliError;
pub use errors::ensure_success;
pub use json::parse_body;
pub use json::parse_body_text;
pub use json::ParsedBody;
pub use query::build_query_params;
pub use query::parse_query_pair;
pub use request::check_deprecation;
pub use request::collect_path_params;
pub use request::is_workspace_param;
pub use request::resolve_body_source;
pub use request::BodySource;
pub use schema::check_operation;
pub use schema::lemma_op_path_no_delimiters;
pub use schema::find_op;
pub use schema::validate_tree;
pub use schema::CommandTree;
pub use schema::Operation;
pub use schema::Param;
pub use schema::Resource;
pub use surface::build_cli;
pub use surface::build_param_arg;
pub use surface::global_flags;
pub use surface::static_commands;
pub use surface::visible_ops;
pub use surface::ArgSpec;
pub use surface::CommandSurface;
pub use surface::GlobalFlag;
pub use surface::OpCommand;
pub use surface::ResourceCommand;
pub use template::build_path;
pub use text::find_byte;
pub use url::join_url;
pub use url::raw_request_url;
pub use url::resolve_api_base;
pub use url::split_base_url;

verus! {

} // verus!
