// A store of values of unrelated types, found again by their type alone.
//
// `table` maps type keys to items; `cell` erases a value into a payload
// tagged with its type's key and reads it back only under that key;
// `registry` holds one resource per type and a column of components per
// registered type; `world` puts them behind one facade; `laws` states the
// store's general properties.
pub mod cell;
pub mod laws;
pub mod registry;
pub mod table;
pub mod world;
