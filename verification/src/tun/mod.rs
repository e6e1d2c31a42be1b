//! The tunnel device: packets, MTU and the routes around it.

pub mod command_laws;
pub mod output_laws;
pub mod packet;
pub mod plan_laws;
pub mod route_output;
pub mod routing;
pub mod routing_laws;
