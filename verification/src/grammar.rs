//! GBNF grammar for Tier-2 decoding.
//!
//! llama.cpp can constrain sampling to a grammar, masking every token that
//! couldn't continue a conforming string. Applied to the extraction schema,
//! that makes malformed output *unrepresentable*: no code fences, no prose
//! preamble, no trailing commas, no truncated object, no invented keys.
//!
//! **Structure only, deliberately.** The grammar pins the JSON *shape* — the
//! exact ten keys the model is asked for, in order, each holding a string or
//! `null`. It does not constrain the values themselves.
//!
//! The grammar is generated from [`prompted_field`] rather than written out
//! by hand, so the fields the model is asked for and the fields it is
//! permitted to emit cannot drift apart.

use vstd::prelude::*;

verus! {

/// The entry-point rule name, as passed to llama.cpp's grammar sampler.
pub const GRAMMAR_ROOT: &'static str = "root";

/// How many fields the model is asked for.
pub const FIELD_COUNT: usize = 10;

/// The field the model is asked for at position `i`, in prompt order.
pub open spec fn spec_field(i: int) -> Seq<char> {
    if i == 0 {
        "document_type"@
    } else if i == 1 {
        "issuing_country"@
    } else if i == 2 {
        "document_number"@
    } else if i == 3 {
        "surname"@
    } else if i == 4 {
        "given_names"@
    } else if i == 5 {
        "nationality"@
    } else if i == 6 {
        "date_of_birth"@
    } else if i == 7 {
        "sex"@
    } else if i == 8 {
        "date_of_expiry"@
    } else {
        "mrz_line"@
    }
}

/// The field the model is asked for at position `i`, in prompt order.
pub fn prompted_field(i: usize) -> (r: &'static str)
    requires
        i < FIELD_COUNT,
    ensures
        r@ == spec_field(i as int),
{
    if i == 0 {
        "document_type"
    } else if i == 1 {
        "issuing_country"
    } else if i == 2 {
        "document_number"
    } else if i == 3 {
        "surname"
    } else if i == 4 {
        "given_names"
    } else if i == 5 {
        "nationality"
    } else if i == 6 {
        "date_of_birth"
    } else if i == 7 {
        "sex"
    } else if i == 8 {
        "date_of_expiry"
    } else {
        "mrz_line"
    }
}

/// Every field the model is asked for, in prompt order.
pub fn prompted_fields() -> (r: Vec<&'static str>)
    ensures
        r@.len() == FIELD_COUNT,
        forall|i: int| 0 <= i < FIELD_COUNT ==> (#[trigger] r@[i])@ == spec_field(i),
{
    let mut out: Vec<&'static str> = Vec::new();
    for i in 0..FIELD_COUNT
        invariant
            out@.len() == i,
            forall|k: int| 0 <= k < i ==> (#[trigger] out@[k])@ == spec_field(k),
    {
        out.push(prompted_field(i));
    }
    out
}

/// The value/string/whitespace rules, kept byte-compatible with the reference
/// `json.gbnf` that ships with llama.cpp — same escape handling, same negated
/// character class. `value` is narrowed to `string | "null"` because every
/// field this grammar covers is an optional string.
pub const VALUE_RULES: &'static str = "\nvalue  ::= string | \"null\"\nstring ::= \"\\\"\" ( [^\"\\\\] | \"\\\\\" ([\"\\\\/bfnrt] | \"u\" [0-9a-fA-F] [0-9a-fA-F] [0-9a-fA-F] [0-9a-fA-F]) )* \"\\\"\"\nws     ::= [ \\t\\n]*\n";

/// The text before the first member: the opening brace.
pub open spec fn grammar_head() -> Seq<char> {
    "root ::= \"{\" ws"@
}

/// The text between two members: a comma.
pub open spec fn member_separator() -> Seq<char> {
    " \",\" ws"@
}

/// The text after the last member: the closing brace and the end of the line.
pub open spec fn grammar_tail() -> Seq<char> {
    " \"}\"\n"@
}

/// The grammar for one member: the quoted key, a colon, and a value.
pub open spec fn member_clause(field: Seq<char>) -> Seq<char> {
    " \"\\\""@ + field + "\\\"\" ws \":\" ws value ws"@
}

/// The members for the first `n` fields, separated by commas.
pub open spec fn members(n: int) -> Seq<char>
    decreases n,
{
    if n <= 0 {
        seq![]
    } else if n == 1 {
        member_clause(spec_field(0))
    } else {
        members(n - 1) + member_separator() + member_clause(spec_field(n - 1))
    }
}

/// The whole grammar [`extraction_gbnf`] builds.
pub open spec fn spec_extraction_gbnf() -> Seq<char> {
    grammar_head() + members(FIELD_COUNT as int) + grammar_tail() + VALUE_RULES@
}

/// Build the GBNF constraining Tier-2 output to the extraction schema.
///
/// Field order is fixed (it mirrors [`prompted_field`]) rather than free: a
/// fixed order is a strictly smaller search space, and nothing downstream
/// cares about key order since keys are matched by name.
pub fn extraction_gbnf() -> (r: String)
    ensures
        r@ == spec_extraction_gbnf(),
{
    let mut gbnf = String::from_str("root ::= \"{\" ws");
    for i in 0..FIELD_COUNT
        invariant
            gbnf@ == grammar_head() + members(i as int),
    {
        let ghost before = gbnf@;
        if i > 0 {
            gbnf.append(" \",\" ws");
        }
        gbnf.append(" \"\\\"");
        gbnf.append(prompted_field(i));
        gbnf.append("\\\"\" ws \":\" ws value ws");
        proof {
            if i == 0 {
                assert(gbnf@ =~= grammar_head() + members(1));
            } else {
                assert(gbnf@ =~= grammar_head() + members(i + 1));
            }
        }
    }
    gbnf.append(" \"}\"\n");
    gbnf.append(VALUE_RULES);
    gbnf
}

} // verus!
