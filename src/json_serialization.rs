//! Code generators: each appends Dart source text for one part of the output.
//! The functions here build single JSON conversions from type text.
use vstd::prelude::*;
use vstd::string::StrSliceExecFns;
use vstd::string::StringExecFns;
use crate::dart_types::{is_collection_name, raw_text};
use crate::freezed_class::NamedArgument;
use crate::json_serialization::json_generation::{append_decode_base, decode_base};
use crate::text::{contains, last_char, text_contains, text_eq};

pub mod copy_with_generation;
pub mod generate_class;
pub mod json_generation;
pub mod mixin_generation;
pub mod solo_class_generation;

verus! {

/// The conversion of the JSON value `expr` to the type written `element_type`
/// (a trailing `?` marks it nullable): numbers cast to `num` and narrowed,
/// `String` and `bool` cast, `DateTime` parsed, any other type decoded by its
/// `fromJson` on a string-keyed map; the nullable forms pass `null` through.
pub open spec fn element_from_json_text(element_type: Seq<char>, expr: Seq<char>) -> Seq<char> {
    let nullable = element_type.len() > 0 && element_type.last() == '?';
    let base = if nullable {
        element_type.drop_last()
    } else {
        element_type
    };
    if base == "int"@ {
        if nullable {
            "("@ + expr + " as num?)?.toInt()"@
        } else {
            "("@ + expr + " as num).toInt()"@
        }
    } else if base == "double"@ {
        if nullable {
            "("@ + expr + " as num?)?.toDouble()"@
        } else {
            "("@ + expr + " as num).toDouble()"@
        }
    } else if base == "String"@ {
        if nullable {
            expr + " as String?"@
        } else {
            expr + " as String"@
        }
    } else if base == "bool"@ {
        if nullable {
            expr + " as bool?"@
        } else {
            expr + " as bool"@
        }
    } else if base == "DateTime"@ {
        if nullable {
            expr + " == null ? null : DateTime.parse("@ + expr + " as String)"@
        } else {
            "DateTime.parse("@ + expr + " as String)"@
        }
    } else if nullable {
        expr + " == null ? null : "@ + base + ".fromJson("@ + expr + " as Map<String, dynamic>)"@
    } else {
        base + ".fromJson("@ + expr + " as Map<String, dynamic>)"@
    }
}

/// Dart code converting the JSON value `expr` to `element_type` (see
/// [`element_from_json_text`]).
pub fn generate_element_from_json(element_type: &str, expr: &str) -> (r: String)
    ensures
        r@ == element_from_json_text(element_type@, expr@),
{
    let n = element_type.unicode_len();
    let is_nullable = match last_char(element_type) {
        Some(c) => c == '?',
        None => false,
    };
    let base_type = if is_nullable {
        element_type.substring_char(0, n - 1)
    } else {
        element_type
    };
    proof {
        if is_nullable {
            assert(base_type@ =~= element_type@.drop_last());
        }
    }
    let mut out = String::new();
    if text_eq(base_type, "int") {
        out.append("(");
        out.append(expr);
        if is_nullable {
            out.append(" as num?)?.toInt()");
        } else {
            out.append(" as num).toInt()");
        }
    } else if text_eq(base_type, "double") {
        out.append("(");
        out.append(expr);
        if is_nullable {
            out.append(" as num?)?.toDouble()");
        } else {
            out.append(" as num).toDouble()");
        }
    } else if text_eq(base_type, "String") {
        out.append(expr);
        if is_nullable {
            out.append(" as String?");
        } else {
            out.append(" as String");
        }
    } else if text_eq(base_type, "bool") {
        out.append(expr);
        if is_nullable {
            out.append(" as bool?");
        } else {
            out.append(" as bool");
        }
    } else if text_eq(base_type, "DateTime") {
        if is_nullable {
            out.append(expr);
            out.append(" == null ? null : DateTime.parse(");
            out.append(expr);
            out.append(" as String)");
        } else {
            out.append("DateTime.parse(");
            out.append(expr);
            out.append(" as String)");
        }
    } else {
        if is_nullable {
            out.append(expr);
            out.append(" == null ? null : ");
        }
        out.append(base_type);
        out.append(".fromJson(");
        out.append(expr);
        out.append(" as Map<String, dynamic>)");
    }
    proof {
        assert(out@ =~= element_from_json_text(element_type@, expr@));
    }
    out
}

pub open spec fn json_value(field_name: Seq<char>) -> Seq<char> {
    "json['"@ + field_name + "']"@
}

/// The decode entry `name: <conversion>` of a field: a collection is decoded
/// as the JSON codec decodes it (see [`decode_base`]), any other type from
/// its type text (see [`element_from_json_text`]).
pub fn generate_field_from_json(field_name: &str, arg: &NamedArgument) -> (r: String)
    ensures
        r@ == field_name@ + ": "@ + (if is_collection_name(arg.argument_type@.name) {
            decode_base(json_value(field_name@), arg.argument_type@, arg.argument_type@.nullable)
        } else {
            element_from_json_text(raw_text(arg.argument_type@), json_value(field_name@))
        }),
{
    let mut key = String::new();
    key.append("json['");
    key.append(field_name);
    key.append("']");
    proof {
        assert(key@ =~= json_value(field_name@));
    }
    let mut out = String::new();
    out.append(field_name);
    out.append(": ");
    if arg.argument_type.is_collection() {
        append_decode_base(&mut out, key.as_str(), &arg.argument_type, arg.argument_type.nullable);
    } else {
        let raw = arg.argument_type.as_raw();
        let conversion = generate_element_from_json(raw.as_str(), key.as_str());
        out.append(conversion.as_str());
    }
    out
}

pub open spec fn object_from_json_text(field_name: Seq<char>, field_type: Seq<char>) -> Seq<char> {
    if contains(field_type, "?"@) {
        field_name + ": json['"@ + field_name + "'] == null ? null : "@ + field_type.drop_last()
            + ".fromJson(json['"@ + field_name + "'] as Map<String, dynamic>)"@
    } else {
        field_name + ": "@ + field_type + ".fromJson(json['"@ + field_name
            + "'] as Map<String, dynamic>)"@
    }
}

/// The decode entry of an object-typed field; a type text holding `?` is
/// nullable and loses its last character.
pub fn generate_object_from_json(field_name: &str, field_type: &str) -> (r: String)
    ensures
        r@ == object_from_json_text(field_name@, field_type@),
{
    let mut out = String::new();
    if text_contains(field_type, "?") {
        let n = field_type.unicode_len();
        proof {
            let i = choose|i: int| 0 <= i && i + "?"@.len() <= field_type@.len() && #[trigger] field_type@.subrange(i, i + "?"@.len()) == "?"@;
            reveal_strlit("?");
        }
        let base_type = field_type.substring_char(0, n - 1);
        out.append(field_name);
        out.append(": json['");
        out.append(field_name);
        out.append("'] == null ? null : ");
        out.append(base_type);
        out.append(".fromJson(json['");
        out.append(field_name);
        out.append("'] as Map<String, dynamic>)");
        proof {
            assert(base_type@ =~= field_type@.drop_last());
        }
    } else {
        out.append(field_name);
        out.append(": ");
        out.append(field_type);
        out.append(".fromJson(json['");
        out.append(field_name);
        out.append("'] as Map<String, dynamic>)");
    }
    proof {
        assert(out@ =~= object_from_json_text(field_name@, field_type@));
    }
    out
}

/// The encode entry `'name': instance.name`.
pub fn generate_field_to_json(field_name: &str) -> (r: String)
    ensures
        r@ == "  '"@ + field_name@ + "': instance."@ + field_name@,
{
    let mut out = String::new();
    out.append("  '");
    out.append(field_name);
    out.append("': instance.");
    out.append(field_name);
    out
}

} // verus!
