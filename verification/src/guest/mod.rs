//! The in-VM qwan agent's pure bookkeeping: the breadcrumb table that
//! assigns breadcrumb ids and stamps them on the case timeline, and the
//! answers the qwan MCP tools give.

pub mod breadcrumbs;
pub mod mcp;

pub use breadcrumbs::BreadcrumbTable;
pub use mcp::ToolResponse;
