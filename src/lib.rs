//! Hook extraction core: path model, module-scope collectors, entry
//! policies, the hook transform's decisions and hook module planning.

pub mod path;
pub mod text;
pub mod collector;
pub mod entry_strategy;
pub mod transform;
pub mod code_move;
pub mod utils;
pub mod parse;
