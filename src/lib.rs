//! Boilerplate generation for Dart value classes: a syntax-tree extractor that
//! reads annotated classes into a typed model, and generators that emit the
//! equality, hashing, `toString`, `copyWith` and JSON code for them.
use vstd::prelude::*;

pub mod dart_types;
pub mod freezed_class;
pub mod json_serialization;
pub mod output;
pub mod parser;
pub mod seq_text;
pub mod syntax;
pub mod text;

use crate::dart_types::{ClassDefinition, class_ready};
use crate::parser::{ExtractError, class_views, extract_classes};
use crate::syntax::SyntaxNode;

verus! {

/// Reads every class marked `@freezed` from a Dart syntax tree, in source
/// order; classes without a mixin are left out. Each class read can be handed
/// to the generators.
pub fn parse_freezed_classes(root: &SyntaxNode) -> (r: Result<Vec<ClassDefinition>, ExtractError>)
    ensures
        match r {
            Ok(v) => extract_classes(root@) == Some(class_views(v@))
                && forall|i: int| 0 <= i < v@.len() ==> class_ready(#[trigger] v@[i]@),
            Err(_) => extract_classes(root@) is None,
        },
{
    parser::parse_dart_code(root)
}

} // verus!
