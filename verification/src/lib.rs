//! A minimal HTTP/1.1 protocol library: parsing raw request text into a
//! request, routing by method and first path segment, handlers that turn
//! a request and its loaded documents into a response, and serialization
//! of responses to their exact wire text.  Socket and file input/output
//! stay with the program around the library; every rule here carries a
//! verified contract.

pub mod handler;
pub mod http_request;
pub mod http_response;
pub mod router;
pub mod server;
pub mod text;

pub use handler::{OrderStatus, PageNotFoundHandler, StaticFileHandler, WebServiceHandler};
pub use http_request::{HttpRequest, Method, Resource, Version};
pub use http_response::HttpResponse;
pub use router::{RouteTarget, Router};
pub use server::Server;
