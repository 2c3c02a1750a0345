//! Command-line configuration keys: alias canonicalization and typed decoding
//! of `KEY=VALUE` option values.

pub mod alias;
pub mod decode;
pub mod json;
pub mod table;
pub mod text;
pub mod value;

pub use alias::{alias_entries, canonicalize, AliasTable};
pub use decode::{
    decoder_entries, parse_csv_keyval_strs, parse_csv_strs, parse_int, parse_str, to_json, Decoder,
    DecoderTable,
};
pub use value::ConfigValue;
