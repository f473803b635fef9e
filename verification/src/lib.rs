//! Host-level defense against JNDI-injection exploits, modelled as verified
//! logic over plain packet bytes and bounded shared-state maps.
//!
//! The crate mirrors the three in-kernel inspection programs of the defense:
//! an egress classifier that scans outbound HTTP requests for the `${jndi`
//! pattern, an ingress filter that correlates inbound follow-up traffic and
//! enforces the configured block policy, and a security-hook guard that locks
//! the shared maps against tampering once booting is complete.

pub mod config;
pub mod egress;
pub mod event;
pub mod headers;
pub mod ingress;
pub mod ldap_bindings;
pub mod lsm;
pub mod packet;
pub mod rules;
pub mod state;
