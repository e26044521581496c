pub mod string_map;
