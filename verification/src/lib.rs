//! Verified logic of the antenna toolbox: the design registry, the text
//! formats the app stores its state in, the caches and request state
//! machines behind the map, the HF maps and the VNA link, and the small
//! rules of the editors.

mod text;
pub mod assoc;
pub mod rich;
pub mod table;
pub mod kv;
pub mod store;
pub mod designs;
pub mod tiles;
pub mod ionmaps;
pub mod wires;
pub mod debounce;
pub mod vnalink;
pub mod pairing;
pub mod traces;
pub mod material;
pub mod state;
pub mod names;
pub mod hf;
pub mod calendar;
pub mod patterns;
pub mod numbers;
pub mod settings;
pub mod tilefiles;
