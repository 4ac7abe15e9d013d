//! Server-to-server federation core of a room-based messaging homeserver:
//! storage keys that order a room's events, destination resolution, the
//! signing envelope of outgoing requests, event-id derivation, the backfill
//! walk and the per-event decisions of transaction ingestion.

pub mod backfill;
pub mod destination;
pub mod event_id;
pub mod pdu_id;
pub mod queries;
pub mod signing;
pub mod transaction;

pub use backfill::{contains_id, walk_stored_events, BackfillWalk};
pub use destination::{
    add_default_port, delegated_hostname, has_explicit_port, host_from_well_known,
    resolve_destination, srv_query_name, strip_trailing_dots, well_known_url, Destination,
};
pub use pdu_id::{append_pdu_id, insert_pdu_id};
pub use event_id::{derive_event_id, event_id_from_hash};
pub use queries::{
    federation_gate, profile_response, wants_avatar_url, wants_displayname, ProfileField, ProfileInfo,
};
pub use signing::{
    authorization_header, authorization_headers, key_valid_until, server_verify_key,
    signing_envelope, SigningEnvelope, VerifyKeyEntry,
};
pub use transaction::{
    typing_action, EduAction, IngestAction, IngestEvent, PduError, PduIngest, PduStage, Placement,
    TransactionResults,
};
