//! The protocol core of a game server: the packet codec, the dispatch
//! registries, the connection read state machine and the on-demand resource
//! streamer, with the entity bookkeeping they lean on.

pub mod client_protocol;
pub mod client_protocol_repository;
pub mod coord_grid;
pub mod entity;
pub mod entity_list;
pub mod game_client;
pub mod if_opensub_encoder;
pub mod js5;
pub mod move_restrict;
pub mod npc;
pub mod ordered;
pub mod outgoing_encoder;
pub mod outgoing_message;
pub mod packet;
pub mod player;
pub mod raw_message;
pub mod rebuild_normal;
pub mod rebuild_normal_encoder;
pub mod roundtrip;
pub mod server_protocol;
pub mod server_protocol_repository;
pub mod tick;
pub mod window_status;
pub mod wire;
