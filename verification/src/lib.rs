//! Multi-tenancy for OpenSearch behind a stock Envoy.
//!
//! A request is adapted ([`adapter`]), resolved by a tenancy, rewritten for the
//! placement that the tenancy chose ([`route`]), and forwarded by the proxy; on the way
//! back its response is shown in the client's own terms ([`response`]). The
//! [`filter`] drives this for one request, [`extproc`] and [`sdk`] carry its effects
//! out, and [`observe`] is what an operator sees of it.
//!
//! Nothing here waits, and nothing here does input or output: whatever has to be asked
//! of a tenancy or a broker is asked by the caller, step by step.
pub mod abi;
pub mod actions;
pub mod adapter;
pub mod asyncwrite;
pub mod authority;
pub mod bench;
pub mod bridge;
pub mod classify;
pub mod config;
pub mod decision;
pub mod demux;
pub mod encode;
pub mod extproc;
pub mod filter;
pub mod gates;
pub mod json;
pub mod lookup;
pub mod observe;
pub mod read;
pub mod reference;
pub mod response;
pub mod rewrite;
pub mod route;
pub mod sdk;
pub mod template;
pub mod text;
pub mod trace;
pub mod transform;
pub mod xfcc;
