pub mod mappings;
pub mod pnr;
pub mod pnr_codec;
pub mod pnr_laws;
pub mod pnr_lemmas;
pub mod pnr_model;
pub mod pnr_windows;
pub mod recnum;
pub mod recnum_laws;
pub mod utils;
