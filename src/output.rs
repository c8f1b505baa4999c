//! The two generated files of one Dart source file, and the choice of which
//! files to read and write.
use vstd::prelude::*;
use vstd::string::StringExecFns;
use crate::dart_types::{ClassDefinition, ClassView, class_ready};
use crate::json_serialization::generate_class::{
    class_declarations_text, class_json_text, generate_class,
};
use crate::parser::class_views;
use crate::seq_text::{concat_map, lemma_concat_map_step, lemma_concat_map_all};
use crate::text::{contains, ends_with, text_contains, text_ends_with, text_eq};

verus! {

/// The header that opens every declarations file.
pub const FREEZED_HEADER: &'static str = "// dart format width=80\n// coverage:ignore-file\n// GENERATED CODE - DO NOT MODIFY BY HAND\n// ignore_for_file: type=lint, unnecessary_cast\n// ignore_for_file: unused_element, deprecated_member_use, deprecated_member_use_from_same_package, use_function_type_syntax_for_parameters, unnecessary_const, avoid_init_to_null, invalid_override_different_default_values_named, prefer_expression_function_bodies, annotate_overrides, invalid_annotation_target, unnecessary_question_mark\n";

/// The identity helper the `copyWith` accessors pass along.
pub const IDENTITY_HELPER: &'static str = "\nT _$identity<T>(T value) => value;\n";

pub open spec fn part_of_text(file_name: Seq<char>) -> Seq<char> {
    "part of '../"@ + file_name + "';"@
}

/// The declarations file: header, `part of`, the identity helper, then each
/// class's declarations in order.
pub open spec fn declarations_file_text(file_name: Seq<char>, classes: Seq<ClassView>) -> Seq<char> {
    FREEZED_HEADER@ + part_of_text(file_name) + IDENTITY_HELPER@ + concat_map(
        classes,
        |c: ClassView| class_declarations_text(c),
    )
}

/// The JSON functions of all classes, in order.
pub open spec fn json_functions_text(classes: Seq<ClassView>) -> Seq<char> {
    concat_map(classes, |c: ClassView| class_json_text(c))
}

/// The JSON file: `part of` and the JSON functions; absent when no class has
/// any.
pub open spec fn json_file_text(file_name: Seq<char>, classes: Seq<ClassView>) -> Option<Seq<char>> {
    if json_functions_text(classes).len() == 0 {
        None
    } else {
        Some(part_of_text(file_name) + json_functions_text(classes))
    }
}

/// The generated text for one source file.
pub struct GeneratedFiles {
    pub freezed: String,
    pub json: Option<String>,
}

/// Generates both files for the classes of the source file `file_name`.
pub fn generate_files(file_name: &str, classes: &Vec<ClassDefinition>) -> (r: GeneratedFiles)
    requires
        forall|i: int| 0 <= i < classes@.len() ==> class_ready(#[trigger] classes@[i]@),
    ensures
        r.freezed@ == declarations_file_text(file_name@, class_views(classes@)),
        match r.json {
            Some(j) => json_file_text(file_name@, class_views(classes@)) == Some(j@),
            None => json_file_text(file_name@, class_views(classes@)) is None,
        },
{
    let ghost cvs = class_views(classes@);
    let mut part_of = String::new();
    part_of.append("part of '../");
    part_of.append(file_name);
    part_of.append("';");
    let mut freezed = String::new();
    freezed.append(FREEZED_HEADER);
    freezed.append(part_of.as_str());
    freezed.append(IDENTITY_HELPER);
    let ghost head = freezed@;
    proof {
        assert(part_of@ =~= part_of_text(file_name@));
        assert(head =~= FREEZED_HEADER@ + part_of_text(file_name@) + IDENTITY_HELPER@);
    }
    let mut json = String::new();
    let mut i: usize = 0;
    while i < classes.len()
        invariant
            i <= classes@.len(),
            cvs == class_views(classes@),
            forall|k: int| 0 <= k < classes@.len() ==> class_ready(#[trigger] classes@[k]@),
            freezed@ == head + concat_map(cvs.take(i as int), |c: ClassView| class_declarations_text(c)),
            json@ == concat_map(cvs.take(i as int), |c: ClassView| class_json_text(c)),
        decreases classes.len() - i,
    {
        generate_class(&mut freezed, &mut json, &classes[i]);
        proof {
            lemma_concat_map_step(cvs, i as int, |c: ClassView| class_declarations_text(c));
            lemma_concat_map_step(cvs, i as int, |c: ClassView| class_json_text(c));
            assert(freezed@ =~= head + concat_map(cvs.take(i + 1), |c: ClassView| class_declarations_text(c)));
        }
        i += 1;
    }
    proof {
        lemma_concat_map_all(cvs, |c: ClassView| class_declarations_text(c));
        lemma_concat_map_all(cvs, |c: ClassView| class_json_text(c));
    }
    if json.as_str().is_empty() {
        GeneratedFiles { freezed, json: None }
    } else {
        let mut g_file = part_of.clone();
        g_file.append(json.as_str());
        GeneratedFiles { freezed, json: Some(g_file) }
    }
}

/// A Dart source file to read: its name ends in `.dart`. Files under a
/// directory named `generated` are never reached (see
/// [`is_skipped_directory`]).
pub open spec fn is_source_name(name: Seq<char>) -> bool {
    ends_with(name, ".dart"@)
}

pub fn is_generation_input(name: &str) -> (r: bool)
    ensures
        r == is_source_name(name@),
{
    text_ends_with(name, ".dart")
}

/// The directory that holds generated files, which is never searched.
pub fn is_skipped_directory(name: &str) -> (r: bool)
    ensures
        r == (name@ == "generated"@),
{
    text_eq(name, "generated")
}

/// The source text mentions the class marker, so the file is worth parsing.
pub fn has_marker(text: &str) -> (r: bool)
    ensures
        r == contains(text@, "@freezed"@),
{
    text_contains(text, "@freezed")
}

/// The names of the two generated files for a source file with stem `stem`.
pub fn output_file_names(stem: &str) -> (r: (String, String))
    ensures
        r.0@ == stem@ + ".freezed.dart"@,
        r.1@ == stem@ + ".g.dart"@,
{
    let mut freezed = String::new();
    freezed.append(stem);
    freezed.append(".freezed.dart");
    let mut json = String::new();
    json.append(stem);
    json.append(".g.dart");
    (freezed, json)
}

} // verus!
