//! Server-side rendering glue for an edge worker: route dispatch by rendering
//! strategy, request snapshots, response metadata, and the assembler that turns
//! a lazy sequence of markup fragments into an HTTP response.

pub mod assembler;
pub mod assets;
pub mod headers;
pub mod mode;
pub mod request;
pub mod response;
pub mod routes;
pub mod sequences;
pub mod server_fn;
pub mod session;
pub mod text;

pub use assets::{asset_extension, asset_media_type, asset_reply, serve_asset};
pub use assembler::{Action, Phase, RenderEvent, Response, ResponseHead, StreamAssembler};
pub use headers::{Header, HeaderError, Headers};
pub use mode::{Method, RenderPlan, SsrMode};
pub use server_fn::{
    accepts_data, missing_reply, server_fn_input, server_fn_name, server_fn_reply, unhosted_reply,
    BinaryResponse, Encoding, Payload,
};
pub use routes::{
    generate_route_list, generate_route_list_with_exclusions, render_app_async_with_context,
    render_app_to_stream_in_order_with_context, render_app_to_stream_with_context,
    render_app_to_stream_with_context_and_replace_blocks, LeptosRoutes, MethodSet, Registration,
    RouteListing, Router, StaticMode,
};
pub use request::{
    generate_request_parts, provide_contexts, RenderContext, RequestError, RequestParts, Url,
};
pub use response::{redirect, ResponseOptions};
