//! Semantic facts about preprocessed C: integer constants, alignments, literal
//! decoding, overflow intrinsics and target options, each with a proved contract.

pub mod arith;
pub mod builtins;
pub mod checked;
pub mod error;
pub mod floats;
pub mod initializer;
pub mod initializer_list;
pub mod inline;
pub mod integer;
pub mod introspection;
pub mod ir;
pub mod layout_rules;
pub mod lexical_tags;
pub mod literals;
pub mod noescape;
pub mod noreturn;
pub mod object_alignment;
pub mod object_extent;
pub mod object_size;
pub mod object_types;
pub mod object_values;
pub mod old_style;
pub mod options;
pub mod overflow;
pub mod parser_extensions;
pub mod parameter_dependencies;
pub mod profile;
pub mod scopes;
pub mod statement;
pub mod subobjects;
pub mod symbol_effects;
pub mod tag_discovery;
pub mod target_features;
pub mod text;
pub mod transparent_union;
pub mod type_alignment;
pub mod typedefs;
pub mod vector;
pub mod vector_constant;

pub use error::Error;
