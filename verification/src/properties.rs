//! Properties that relate the functions of the library.

use vstd::prelude::*;

use crate::generator::{
    element_decl_name, element_indices, first_trigger_port, indexed_name, inner_sizes_positive, plain_names,
    rs_decl_arg, rs_decl_args_of, rs_initialisation, rs_initialisations_of, rs_members_of, rs_text,
    rs_tick_decl_args, spec_generate_rs, spec_generate_sv, spec_sv_trigger_expression, sv_call_arg,
    sv_call_args_of, sv_decl_arg, sv_decl_args_of, sv_text, sv_tick_call_args, sv_tick_decl_args,
    SpecGenerateError,
};
use crate::parser::{
    inner_size_ok, is_first_bad_size, is_valid, names_distinct, Direction, port_trigger_count, separator,
    some_name_has_separator, trigger_count, SpecParseResult, SpecPort,
};
use crate::parser::{
    lemma_utf8_length, spec_attribute_prefix, spec_attribute_step, spec_decode_string_literal, spec_get_attribute,
    spec_port, spec_port_trigger, spec_ports_prefix,
};
use crate::syntax::{AnsiPortItem, AttributeSpec};
use crate::text::{
    spec_unescape, accumulate_digits, contains_text, decimal, is_name, join, digit_char, digit_value, is_decimal_digit, occurs_at, spec_parse_u64,
};

verus! {

/// If some port's inner width is out of range, there is a first such port.
proof fn lemma_first_bad_size_exists(ports: Seq<SpecPort>, i: int)
    requires
        0 <= i < ports.len(),
        !inner_size_ok(ports[i]),
    ensures
        exists|k: int| is_first_bad_size(ports, k),
    decreases i,
{
    if forall|j: int| 0 <= j < i ==> inner_size_ok(#[trigger] ports[j]) {
        assert(is_first_bad_size(ports, i));
    } else {
        let j = choose|j: int| 0 <= j < i && !inner_size_ok(#[trigger] ports[j]);
        lemma_first_bad_size_exists(ports, j);
    }
}

/// A port that carries a trigger attribute exists when the count is positive.
proof fn lemma_trigger_port_exists(ports: Seq<SpecPort>)
    requires
        port_trigger_count(ports) > 0,
    ensures
        exists|i: int| 0 <= i < ports.len() && (#[trigger] ports[i]).trigger,
    decreases ports.len(),
{
    if !ports.last().trigger {
        lemma_trigger_port_exists(ports.drop_last());
        let i = choose|i: int| 0 <= i < ports.drop_last().len() && (#[trigger] ports.drop_last()[i]).trigger;
        assert(ports[i] == ports.drop_last()[i]);
    } else {
        assert(ports[ports.len() - 1].trigger);
    }
}

/// The search for the first trigger port finds one when one exists.
proof fn lemma_first_trigger_port_found(ports: Seq<SpecPort>, i: int)
    requires
        0 <= i < ports.len(),
        ports[i].trigger,
    ensures
        first_trigger_port(ports) is Some,
    decreases i,
{
    if i > 0 && !ports[0].trigger {
        assert(ports.drop_first()[i - 1] == ports[i]);
        lemma_first_trigger_port_found(ports.drop_first(), i - 1);
    }
}

/// A parse result that `validate` accepts can be given to `generate`: every
/// inner width is at least one bit, and a trigger expression is found.
pub proof fn lemma_valid_can_generate(pr: SpecParseResult)
    requires
        is_valid(pr),
    ensures
        inner_sizes_positive(pr),
        spec_sv_trigger_expression(pr) is Some,
{
    assert forall|i: int| 0 <= i < pr.ports.len() implies #[trigger] pr.ports[i].size_inner >= 1 by {
        if !inner_size_ok(pr.ports[i]) {
            lemma_first_bad_size_exists(pr.ports, i);
        }
    }
    assert(trigger_count(pr) == 1);
    if pr.trigger is None {
        lemma_trigger_port_exists(pr.ports);
        let i = choose|i: int| 0 <= i < pr.ports.len() && (#[trigger] pr.ports[i]).trigger;
        lemma_first_trigger_port_found(pr.ports, i);
    }
}


// ---------------------------------------------------------------------
// Names of the tick function arguments.
// ---------------------------------------------------------------------

/// The decimal form of a number is a non-empty sequence of digits, of
/// length at least two from 10 on.
pub proof fn lemma_decimal_digits(n: nat)
    ensures
        decimal(n).len() >= 1,
        n >= 10 ==> decimal(n).len() >= 2,
        forall|i: int| 0 <= i < decimal(n).len() ==> is_decimal_digit(#[trigger] decimal(n)[i]),
    decreases n,
{
    if n >= 10 {
        lemma_decimal_digits(n / 10);
        assert forall|i: int| 0 <= i < decimal(n).len() implies is_decimal_digit(#[trigger] decimal(n)[i]) by {
            if i < decimal(n / 10).len() {
                assert(decimal(n)[i] == decimal(n / 10)[i]);
            }
        }
    }
}

proof fn lemma_digit_char_injective(x: nat, y: nat)
    requires
        x < 10,
        y < 10,
        digit_char(x) == digit_char(y),
    ensures
        x == y,
{
}

/// Distinct numbers have distinct decimal forms.
pub proof fn lemma_decimal_injective(a: nat, b: nat)
    requires
        decimal(a) == decimal(b),
    ensures
        a == b,
    decreases a,
{
    lemma_decimal_digits(a);
    lemma_decimal_digits(b);
    if a >= 10 && b >= 10 {
        assert(decimal(a).last() == digit_char(a % 10));
        assert(decimal(b).last() == digit_char(b % 10));
        lemma_digit_char_injective(a % 10, b % 10);
        assert(decimal(a / 10) =~= decimal(a).drop_last());
        assert(decimal(b / 10) =~= decimal(b).drop_last());
        lemma_decimal_injective(a / 10, b / 10);
    } else if a < 10 && b < 10 {
        assert(decimal(a)[0] == digit_char(a));
        assert(decimal(b)[0] == digit_char(b));
        lemma_digit_char_injective(a, b);
    }
}

proof fn lemma_separator_chars()
    ensures
        separator() =~= seq!['_', '_', '_'],
{
    reveal_strlit("___");
}

/// An indexed name `{n1}___{a}` whose port name is at most as long as `n2`
/// differs from `{n2}___{b}` when neither port name contains `___` and the
/// pairs differ.
proof fn lemma_indexed_names_ordered(n1: Seq<char>, a: nat, n2: Seq<char>, b: nat)
    requires
        n1.len() <= n2.len(),
        !contains_text(n1, separator()),
        !contains_text(n2, separator()),
        n1 != n2 || a != b,
    ensures
        indexed_name(n1, a) != indexed_name(n2, b),
{
    lemma_separator_chars();
    lemma_decimal_digits(a);
    lemma_decimal_digits(b);
    let x = indexed_name(n1, a);
    let y = indexed_name(n2, b);
    if x == y {
        let l1 = n1.len() as int;
        let l2 = n2.len() as int;
        if l1 == l2 {
            assert(n1 =~= x.subrange(0, l1));
            assert(n2 =~= y.subrange(0, l2));
            assert(decimal(a) =~= x.subrange(l1 + 3, x.len() as int));
            assert(decimal(b) =~= y.subrange(l2 + 3, y.len() as int));
            lemma_decimal_injective(a, b);
        } else if l2 >= l1 + 3 {
            assert(x.subrange(l1, l1 + 3) =~= separator());
            assert(n2.subrange(l1, l1 + 3) =~= y.subrange(l1, l1 + 3));
            assert(occurs_at(n2, separator(), l1));
        } else {
            // The first digit of `a` faces an underscore of the separator of `y`.
            assert(x[l1 + 3] == decimal(a)[0]);
            assert(is_decimal_digit(decimal(a)[0]));
            assert(y[l1 + 3] == separator()[l1 + 3 - l2]);
        }
    }
}

/// Indexed names of different elements differ.
proof fn lemma_indexed_names_distinct(n1: Seq<char>, a: nat, n2: Seq<char>, b: nat)
    requires
        !contains_text(n1, separator()),
        !contains_text(n2, separator()),
        n1 != n2 || a != b,
    ensures
        indexed_name(n1, a) != indexed_name(n2, b),
{
    if n1.len() <= n2.len() {
        lemma_indexed_names_ordered(n1, a, n2, b);
    } else {
        lemma_indexed_names_ordered(n2, b, n1, a);
    }
}

/// An indexed name contains the separator, so it is no port name of a valid result.
proof fn lemma_indexed_name_not_plain(n1: Seq<char>, a: nat, n2: Seq<char>)
    requires
        !contains_text(n2, separator()),
    ensures
        indexed_name(n1, a) != n2,
{
    lemma_separator_chars();
    let x = indexed_name(n1, a);
    let l = n1.len() as int;
    if x == n2 {
        assert(x.subrange(l, l + 3) =~= separator());
        assert(occurs_at(n2, separator(), l));
    }
}

/// In a parse result that `validate` accepts, the names under which the
/// elements of the ports are passed to the tick function (`{name}` for a
/// port without outer dimension, `{name}___{i}` for element `i` of one with
/// an outer dimension) are pairwise distinct, and none of them is
/// `___instance`, the name of the instance handle in the SystemVerilog
/// declaration. The same names declare the arguments of the Rust tick
/// function.
pub proof fn lemma_tick_argument_names_distinct(
    pr: SpecParseResult,
    i1: int,
    e1: Option<nat>,
    i2: int,
    e2: Option<nat>,
)
    requires
        is_valid(pr),
        0 <= i1 < pr.ports.len(),
        0 <= i2 < pr.ports.len(),
        element_indices(pr.ports[i1]).contains(e1),
        element_indices(pr.ports[i2]).contains(e2),
        i1 != i2 || e1 != e2,
    ensures
        element_decl_name(pr.ports[i1], e1) != element_decl_name(pr.ports[i2], e2),
        element_decl_name(pr.ports[i1], e1) != "___instance"@,
{
    let p1 = pr.ports[i1];
    let p2 = pr.ports[i2];
    assert(names_distinct(pr.ports));
    assert(!some_name_has_separator(pr.ports));
    assert(!contains_text(pr.ports[i1].name, separator()));
    assert(!contains_text(pr.ports[i2].name, separator()));
    if i1 != i2 {
        if i1 < i2 {
            assert(p1.name != p2.name);
        } else {
            assert(p2.name != p1.name);
        }
    }
    match (e1, e2) {
        (Some(a), Some(b)) => {
            lemma_indexed_names_distinct(p1.name, a, p2.name, b);
        },
        (Some(a), None) => {
            lemma_indexed_name_not_plain(p1.name, a, p2.name);
        },
        (None, Some(b)) => {
            lemma_indexed_name_not_plain(p2.name, b, p1.name);
        },
        (None, None) => {
            if i1 == i2 {
                assert(false);
            }
        },
    }
    // No element name is the name of the instance handle.
    reveal_strlit("___instance");
    lemma_separator_chars();
    let instance = "___instance"@;
    match e1 {
        Some(a) => {
            lemma_decimal_digits(a);
            let x = indexed_name(p1.name, a);
            assert(x.last() == decimal(a).last());
            assert(instance.last() == 'e');
        },
        None => {
            assert(instance.subrange(0, 3) =~= separator());
            assert(occurs_at(instance, separator(), 0));
        },
    }
}

/// Each element of a port is passed as one argument of its own: a port with
/// an outer dimension of `n` elements gives `n` arguments, element `i` passed
/// as `{name}[i]` and declared as `{name}___{i}`; a port without one gives a
/// single argument.
pub proof fn lemma_one_argument_per_element(p: SpecPort, i: int)
    ensures
        crate::generator::sv_decl_args(p).len() == element_indices(p).len(),
        crate::generator::sv_call_args(p).len() == element_indices(p).len(),
        crate::generator::rs_decl_args(p).len() == element_indices(p).len(),
        element_indices(p).len() == match p.size_outer { Some(o) => o as nat, None => 1nat },
        p.size_outer matches Some(o) && 0 <= i < o ==> {
            &&& crate::generator::sv_call_args(p)[i] == p.name + "["@ + decimal(i as nat) + "]"@
            &&& crate::generator::sv_decl_args(p)[i] == crate::generator::sv_decl_arg(p, Some(i as nat))
            &&& element_decl_name(p, Some(i as nat)) == indexed_name(p.name, i as nat)
        },
{
}

/// A port's field is initialised in the struct of its own direction only:
/// its initialisation is empty exactly in the struct of the other direction,
/// so each port is initialised in exactly one of `Inputs` and `Outputs`.
pub proof fn lemma_initialisation_in_own_struct(p: SpecPort, d: Direction)
    ensures
        (rs_initialisation(p, d) == Seq::<char>::empty()) <==> d != p.direction,
{
    if d == p.direction {
        reveal_strlit(": [");
        reveal_strlit(": ");
        assert(rs_initialisation(p, d).len() >= 2);
    }
}

/// Every element of every port, in port order, with its port.
pub open spec fn port_elements(ports: Seq<SpecPort>) -> Seq<(SpecPort, Option<nat>)>
    decreases ports.len(),
{
    if ports.len() == 0 {
        Seq::empty()
    } else {
        port_elements(ports.drop_last()) + element_indices(ports.last()).map_values(
            |e: Option<nat>| (ports.last(), e),
        )
    }
}

/// After the instance handle, the SystemVerilog tick declaration, the
/// SystemVerilog tick call and the Rust tick function each hold one argument
/// for each element of each port, in the same order: the `k`-th of each
/// belongs to the `k`-th port element. An SV `input` element is declared in
/// Rust as `u8` or `*const u32`, an `output` element as `*mut u8` or
/// `*mut u32` (`rs_argument_type`).
pub proof fn lemma_tick_arguments_match(ports: Seq<SpecPort>)
    ensures
        sv_decl_args_of(ports).len() == port_elements(ports).len(),
        sv_call_args_of(ports).len() == port_elements(ports).len(),
        rs_decl_args_of(ports).len() == port_elements(ports).len(),
        forall|k: int| 0 <= k < port_elements(ports).len() ==> {
            let pe = #[trigger] port_elements(ports)[k];
            &&& sv_decl_args_of(ports)[k] == sv_decl_arg(pe.0, pe.1)
            &&& sv_call_args_of(ports)[k] == sv_call_arg(pe.0, pe.1)
            &&& rs_decl_args_of(ports)[k] == rs_decl_arg(pe.0, pe.1)
        },
    decreases ports.len(),
{
    if ports.len() > 0 {
        let rest = ports.drop_last();
        let l = ports.last();
        lemma_tick_arguments_match(rest);
        let a = port_elements(rest);
        let n = a.len();
        assert forall|k: int| 0 <= k < port_elements(ports).len() implies {
            let pe = #[trigger] port_elements(ports)[k];
            &&& sv_decl_args_of(ports)[k] == sv_decl_arg(pe.0, pe.1)
            &&& sv_call_args_of(ports)[k] == sv_call_arg(pe.0, pe.1)
            &&& rs_decl_args_of(ports)[k] == rs_decl_arg(pe.0, pe.1)
        } by {
            if k < n {
                assert(port_elements(ports)[k] == a[k]);
            } else {
                assert(port_elements(ports)[k] == (l, element_indices(l)[k - n]));
            }
        }
    }
}


// ---------------------------------------------------------------------
// What `validate` accepts.
// ---------------------------------------------------------------------

/// `validate` accepts a parse result exactly when every inner width is in
/// `[1, 128]`, the port names are distinct and contain no `___`, and exactly
/// one trigger attribute is present, on the module or on a port.
pub proof fn lemma_valid_iff(pr: SpecParseResult)
    ensures
        is_valid(pr) <==> {
            &&& forall|i: int| 0 <= i < pr.ports.len() ==> inner_size_ok(#[trigger] pr.ports[i])
            &&& names_distinct(pr.ports)
            &&& !some_name_has_separator(pr.ports)
            &&& trigger_count(pr) == 1
        },
{
    if is_valid(pr) {
        assert forall|i: int| 0 <= i < pr.ports.len() implies inner_size_ok(#[trigger] pr.ports[i]) by {
            if !inner_size_ok(pr.ports[i]) {
                lemma_first_bad_size_exists(pr.ports, i);
            }
        }
    }
}

// ---------------------------------------------------------------------
// Numbers and literals.
// ---------------------------------------------------------------------

/// Reading digits depends only on the digits read.
proof fn lemma_accumulate_agree(d1: Seq<char>, d2: Seq<char>, k: nat)
    requires
        k <= d1.len(),
        k <= d2.len(),
        forall|i: int| 0 <= i < k ==> d1[i] == d2[i],
    ensures
        accumulate_digits(d1, k) == accumulate_digits(d2, k),
    decreases k,
{
    if k > 0 {
        lemma_accumulate_agree(d1, d2, (k - 1) as nat);
    }
}

proof fn lemma_digit_value(d: nat)
    requires
        d < 10,
    ensures
        is_decimal_digit(digit_char(d)),
        digit_value(digit_char(d)) == d,
{
}

/// Reading the decimal form of a `u64` gives the number back.
proof fn lemma_accumulate_decimal(n: nat)
    requires
        n <= u64::MAX,
    ensures
        accumulate_digits(decimal(n), decimal(n).len()) == Ok::<u64, crate::text::IntErrorKind>(n as u64),
    decreases n,
{
    lemma_decimal_digits(n);
    if n < 10 {
        lemma_digit_value(n);
        assert(decimal(n)[0] == digit_char(n));
        assert(accumulate_digits(decimal(n), 0) == Ok::<u64, crate::text::IntErrorKind>(0));
    } else {
        let prefix = decimal(n / 10);
        lemma_accumulate_decimal(n / 10);
        lemma_decimal_digits(n / 10);
        assert(decimal(n) == prefix.push(digit_char(n % 10)));
        lemma_accumulate_agree(decimal(n), prefix, prefix.len());
        lemma_digit_value(n % 10);
        assert(decimal(n)[prefix.len() as int] == digit_char(n % 10));
        assert((n / 10) * 10 + n % 10 == n);
    }
}

/// The decimal text that the generator writes for a number (`u64_to_decimal`)
/// is read back as that number by the analysis (`parse_u64`).
pub proof fn lemma_decimal_round_trip(n: u64)
    ensures
        spec_parse_u64(decimal(n as nat)) == Ok::<u64, crate::text::IntErrorKind>(n),
{
    lemma_decimal_digits(n as nat);
    lemma_accumulate_decimal(n as nat);
    assert(is_decimal_digit(decimal(n as nat)[0]));
}

/// Text without backslashes has no escape sequence: it stands for itself.
pub proof fn lemma_unescape_plain(s: Seq<char>)
    requires
        !s.contains('\\'),
    ensures
        spec_unescape(s) == Some(s),
    decreases s.len(),
{
    if s.len() > 0 {
        assert(s[0] != '\\');
        assert(!s.skip(1).contains('\\')) by {
            if s.skip(1).contains('\\') {
                let i = choose|i: int| 0 <= i < s.skip(1).len() && s.skip(1)[i] == '\\';
                assert(s[i + 1] == '\\');
            }
        }
        lemma_unescape_plain(s.skip(1));
        assert(seq![s[0]] + s.skip(1) =~= s);
    }
}

/// Decoding a string literal gives the text between its quotes with its
/// escape sequences replaced; text without backslashes comes back unchanged.
pub proof fn lemma_decode_quoted(s: Seq<char>)
    ensures
        spec_decode_string_literal(seq!['"'] + s + seq!['"']) == match spec_unescape(s) {
            Some(t) => Ok::<Seq<char>, crate::parser::SpecParseError>(t),
            None => Err(crate::parser::SpecParseError::InvalidEscape(seq!['"'] + s + seq!['"'])),
        },
        !s.contains('\\') ==> spec_decode_string_literal(seq!['"'] + s + seq!['"'])
            == Ok::<Seq<char>, crate::parser::SpecParseError>(s),
{
    let q = seq!['"'] + s + seq!['"'];
    lemma_utf8_length(q);
    assert(q[0] == '"');
    assert(q.last() == '"');
    assert(q.subrange(1, q.len() - 1) =~= s);
    if !s.contains('\\') {
        lemma_unescape_plain(s);
    }
}


// ---------------------------------------------------------------------
// What the generated text says, in literal text.
// ---------------------------------------------------------------------

/// `pat` occurs in `a + b` wherever it occurs in `a` or in `b`.
proof fn lemma_contains_concat(pat: Seq<char>)
    ensures
        forall|a: Seq<char>, b: Seq<char>|
            (contains_text(a, pat) || contains_text(b, pat)) ==> #[trigger] contains_text(a + b, pat),
{
    assert forall|a: Seq<char>, b: Seq<char>|
        (contains_text(a, pat) || contains_text(b, pat)) implies #[trigger] contains_text(a + b, pat) by {
        if contains_text(a, pat) {
            let i = choose|i: int| occurs_at(a, pat, i);
            assert((a + b).subrange(i, i + pat.len()) =~= a.subrange(i, i + pat.len()));
            assert(occurs_at(a + b, pat, i));
        } else {
            let i = choose|i: int| occurs_at(b, pat, i);
            assert((a + b).subrange(a.len() + i, a.len() + i + pat.len()) =~= b.subrange(i, i + pat.len()));
            assert(occurs_at(a + b, pat, a.len() + i));
        }
    }
}

/// `p` occurs in a text that holds it between two others.
proof fn lemma_contains_inside(pre: Seq<char>, a: Seq<char>, p: Seq<char>, b: Seq<char>)
    ensures
        contains_text(pre + (a + p + b), p),
{
    assert((pre + (a + p + b)).subrange((pre + a).len() as int, ((pre + a).len() + p.len()) as int) =~= p);
    assert(occurs_at(pre + (a + p + b), p, (pre + a).len() as int));
}

/// `l + m + l2` occurs where `m` stands between a text that ends with `l`
/// and one that starts with `l2`.
proof fn lemma_contains_across(pre: Seq<char>, a: Seq<char>, l: Seq<char>, m: Seq<char>, l2: Seq<char>, b: Seq<char>)
    ensures
        contains_text(pre + (a + l) + m + (l2 + b), l + m + l2),
{
    let x = pre + (a + l) + m + (l2 + b);
    let p = l + m + l2;
    assert(x.subrange((pre + a).len() as int, ((pre + a).len() + p.len()) as int) =~= p);
    assert(occurs_at(x, p, (pre + a).len() as int));
}

/// The generated `ReturnCode` enum: `Success` is 0 and `Failure` is 1.
proof fn lemma_rs_return_code_values(pr: SpecParseResult)
    ensures
        contains_text(spec_generate_rs(pr), "#[repr(u8)]\nenum ReturnCode {\n    Success = 0,\n    Failure = 1,\n}"@),
{
        let prefix = pr.module_name;
        let input_members = rs_members_of(pr.ports, Direction::Input);
        let output_members = rs_members_of(pr.ports, Direction::Output);
        let tick_decl_args = join(rs_tick_decl_args(pr), ", "@);
        let input_initialisation = rs_initialisations_of(pr.ports, Direction::Input);
        let output_initialisation = rs_initialisations_of(pr.ports, Direction::Output);
        let s = rs_text(input_members, output_members, prefix, tick_decl_args, input_initialisation, output_initialisation);
        assert(spec_generate_rs(pr) == s);
        reveal_strlit("_new: {e:?}\");\n            std::ptr::null()\n        }\n    }\n}\n\n#[repr(u8)]\nenum ReturnCode {\n    Success = 0,\n    Failure = 1,\n}\n\n#[no_mangle]\nextern \"C\" fn ");
        reveal_strlit("_new: {e:?}\");\n            std::ptr::null()\n        }\n    }\n}\n\n");
        reveal_strlit("#[repr(u8)]\nenum ReturnCode {\n    Success = 0,\n    Failure = 1,\n}");
        reveal_strlit("\n\n#[no_mangle]\nextern \"C\" fn ");
        assert("_new: {e:?}\");\n            std::ptr::null()\n        }\n    }\n}\n\n#[repr(u8)]\nenum ReturnCode {\n    Success = 0,\n    Failure = 1,\n}\n\n#[no_mangle]\nextern \"C\" fn "@ =~= "_new: {e:?}\");\n            std::ptr::null()\n        }\n    }\n}\n\n"@ + "#[repr(u8)]\nenum ReturnCode {\n    Success = 0,\n    Failure = 1,\n}"@ + "\n\n#[no_mangle]\nextern \"C\" fn "@);
        lemma_contains_inside(("\nuse core::ffi::{c_char, CStr};\nuse core::marker::PhantomData;\nuse std::sync::{Arc, Mutex};\nuse bitvec::{slice::BitSlice, ptr::{bitslice_from_raw_parts, bitslice_from_raw_parts_mut}};\nuse super::Instance;\n\npub struct Inputs<'a> {\n"@ + input_members + "\npub ___lifetime: PhantomData<&'a ()>,\n}\n\npub struct Outputs<'a> {\n"@ + output_members + "\npub ___lifetime: PhantomData<&'a ()>,\n}\n\n#[no_mangle]\nextern \"C\" fn "@ + prefix + "_new(module_path: *const c_char, plusarg: *const c_char) -> *const Mutex<Instance> {\n    let module_path = unsafe { CStr::from_ptr(module_path) }.to_string_lossy();\n    let plusarg = unsafe { CStr::from_ptr(plusarg) }.to_string_lossy();\n    match Instance::new(&module_path, &plusarg) {\n        Ok(instance) => {\n            Arc::into_raw(instance)\n        }\n        Err(e) => {\n            eprintln!(\"Error in "@ + prefix), "_new: {e:?}\");\n            std::ptr::null()\n        }\n    }\n}\n\n"@, "#[repr(u8)]\nenum ReturnCode {\n    Success = 0,\n    Failure = 1,\n}"@, "\n\n#[no_mangle]\nextern \"C\" fn "@);
        lemma_contains_concat("#[repr(u8)]\nenum ReturnCode {\n    Success = 0,\n    Failure = 1,\n}"@);
        assert(contains_text(s, "#[repr(u8)]\nenum ReturnCode {\n    Success = 0,\n    Failure = 1,\n}"@));
}

/// The generated tick function answers `Success` for `Ok` and `Failure` for `Err`.
proof fn lemma_rs_tick_result_codes(pr: SpecParseResult)
    ensures
        contains_text(spec_generate_rs(pr), "match guard.tick(&inputs, &mut outputs) {\n            Ok(()) => {\n                ReturnCode::Success\n            }\n            Err(e) => {\n                eprintln!(\"Error in "@ + pr.module_name + "_tick: {e:?}\");\n                ReturnCode::Failure\n            }"@),
{
        let prefix = pr.module_name;
        let input_members = rs_members_of(pr.ports, Direction::Input);
        let output_members = rs_members_of(pr.ports, Direction::Output);
        let tick_decl_args = join(rs_tick_decl_args(pr), ", "@);
        let input_initialisation = rs_initialisations_of(pr.ports, Direction::Input);
        let output_initialisation = rs_initialisations_of(pr.ports, Direction::Output);
        let s = rs_text(input_members, output_members, prefix, tick_decl_args, input_initialisation, output_initialisation);
        assert(spec_generate_rs(pr) == s);
        reveal_strlit("\n            ___lifetime: PhantomData,\n        };\n        let mut guard = instance.as_ref().unwrap().lock().unwrap();\n        match guard.tick(&inputs, &mut outputs) {\n            Ok(()) => {\n                ReturnCode::Success\n            }\n            Err(e) => {\n                eprintln!(\"Error in ");
        reveal_strlit("\n            ___lifetime: PhantomData,\n        };\n        let mut guard = instance.as_ref().unwrap().lock().unwrap();\n        ");
        reveal_strlit("match guard.tick(&inputs, &mut outputs) {\n            Ok(()) => {\n                ReturnCode::Success\n            }\n            Err(e) => {\n                eprintln!(\"Error in ");
        reveal_strlit("_tick: {e:?}\");\n                ReturnCode::Failure\n            }\n        }\n    }\n}\n\n#[no_mangle]\nextern \"C\" fn ");
        reveal_strlit("_tick: {e:?}\");\n                ReturnCode::Failure\n            }");
        reveal_strlit("\n        }\n    }\n}\n\n#[no_mangle]\nextern \"C\" fn ");
        assert("\n            ___lifetime: PhantomData,\n        };\n        let mut guard = instance.as_ref().unwrap().lock().unwrap();\n        match guard.tick(&inputs, &mut outputs) {\n            Ok(()) => {\n                ReturnCode::Success\n            }\n            Err(e) => {\n                eprintln!(\"Error in "@ =~= "\n            ___lifetime: PhantomData,\n        };\n        let mut guard = instance.as_ref().unwrap().lock().unwrap();\n        "@ + "match guard.tick(&inputs, &mut outputs) {\n            Ok(()) => {\n                ReturnCode::Success\n            }\n            Err(e) => {\n                eprintln!(\"Error in "@);
        assert("_tick: {e:?}\");\n                ReturnCode::Failure\n            }\n        }\n    }\n}\n\n#[no_mangle]\nextern \"C\" fn "@ =~= "_tick: {e:?}\");\n                ReturnCode::Failure\n            }"@ + "\n        }\n    }\n}\n\n#[no_mangle]\nextern \"C\" fn "@);
        lemma_contains_across(("\nuse core::ffi::{c_char, CStr};\nuse core::marker::PhantomData;\nuse std::sync::{Arc, Mutex};\nuse bitvec::{slice::BitSlice, ptr::{bitslice_from_raw_parts, bitslice_from_raw_parts_mut}};\nuse super::Instance;\n\npub struct Inputs<'a> {\n"@ + input_members + "\npub ___lifetime: PhantomData<&'a ()>,\n}\n\npub struct Outputs<'a> {\n"@ + output_members + "\npub ___lifetime: PhantomData<&'a ()>,\n}\n\n#[no_mangle]\nextern \"C\" fn "@ + prefix + "_new(module_path: *const c_char, plusarg: *const c_char) -> *const Mutex<Instance> {\n    let module_path = unsafe { CStr::from_ptr(module_path) }.to_string_lossy();\n    let plusarg = unsafe { CStr::from_ptr(plusarg) }.to_string_lossy();\n    match Instance::new(&module_path, &plusarg) {\n        Ok(instance) => {\n            Arc::into_raw(instance)\n        }\n        Err(e) => {\n            eprintln!(\"Error in "@ + prefix + "_new: {e:?}\");\n            std::ptr::null()\n        }\n    }\n}\n\n#[repr(u8)]\nenum ReturnCode {\n    Success = 0,\n    Failure = 1,\n}\n\n#[no_mangle]\nextern \"C\" fn "@ + prefix + "_tick("@ + tick_decl_args + ") -> ReturnCode {\n    unsafe {\n        let inputs = Inputs {\n            "@ + input_initialisation + "\n            ___lifetime: PhantomData,\n        };\n        let mut outputs = Outputs {\n            "@ + output_initialisation), "\n            ___lifetime: PhantomData,\n        };\n        let mut guard = instance.as_ref().unwrap().lock().unwrap();\n        "@, "match guard.tick(&inputs, &mut outputs) {\n            Ok(()) => {\n                ReturnCode::Success\n            }\n            Err(e) => {\n                eprintln!(\"Error in "@, prefix, "_tick: {e:?}\");\n                ReturnCode::Failure\n            }"@, "\n        }\n    }\n}\n\n#[no_mangle]\nextern \"C\" fn "@);
        lemma_contains_concat("match guard.tick(&inputs, &mut outputs) {\n            Ok(()) => {\n                ReturnCode::Success\n            }\n            Err(e) => {\n                eprintln!(\"Error in "@ + prefix + "_tick: {e:?}\");\n                ReturnCode::Failure\n            }"@);
        assert(contains_text(s, "match guard.tick(&inputs, &mut outputs) {\n            Ok(()) => {\n                ReturnCode::Success\n            }\n            Err(e) => {\n                eprintln!(\"Error in "@ + prefix + "_tick: {e:?}\");\n                ReturnCode::Failure\n            }"@));
}

/// The SystemVerilog code calls `{module}_tick`.
proof fn lemma_sv_tick_called(pr: SpecParseResult)
    ensures
        spec_generate_sv(pr) matches Ok(s) ==> contains_text(s, "if ("@ + pr.module_name + "_tick("@),
{
    if let Some(trigger) = spec_sv_trigger_expression(pr) {
            let prefix = pr.module_name;
            let tick_decl_args = join(sv_tick_decl_args(pr), ", "@);
            let tick_call_args = join(sv_tick_call_args(pr), ", "@);
            let s = sv_text(prefix, tick_decl_args, trigger, tick_call_args);
            assert(spec_generate_sv(pr) == Ok::<Seq<char>, SpecGenerateError>(s));
            reveal_strlit(") begin\n        if (");
            reveal_strlit(") begin\n        ");
            reveal_strlit("if (");
            reveal_strlit("_tick(");
            assert(") begin\n        if ("@ =~= ") begin\n        "@ + "if ("@);
            assert("_tick("@ =~= "_tick("@ + Seq::<char>::empty());
            lemma_contains_across(("\n    import \"DPI-C\" function chandle "@ + prefix + "_new(input string module_path, input string plusarg);\n    import \"DPI-C\" function void "@ + prefix + "_free(input chandle ___instance);\n    import \"DPI-C\" function byte unsigned "@ + prefix + "_tick("@ + tick_decl_args + ");\n\n    chandle ___instance___ = null;\n\n    initial begin\n        string ___plusarg___;\n        void'($value$plusargs(\""@ + prefix + "=%s\", ___plusarg___));\n        ___instance___ = "@ + prefix + "_new($sformatf(\"%m\"), ___plusarg___);\n        if (___instance___ == null) begin\n            $fatal(0, \"Failed to create "@ + prefix + " instance.\");\n        end\n    end\n\n    final begin\n        if (___instance___ !== null) begin\n            "@ + prefix + "_free(___instance___);\n            ___instance___ = null;\n        end\n    end\n\n    always @("@ + trigger), ") begin\n        "@, "if ("@, prefix, "_tick("@, Seq::<char>::empty());
            lemma_contains_concat("if ("@ + prefix + "_tick("@);
            assert(contains_text(s, "if ("@ + prefix + "_tick("@));
    }
}

/// The SystemVerilog code stops when the tick function answers non-zero.
proof fn lemma_sv_tick_checked(pr: SpecParseResult)
    ensures
        spec_generate_sv(pr) matches Ok(s) ==> contains_text(s, ") != 0) begin\n            $fatal(0, \"Failed to tick "@),
{
    if let Some(trigger) = spec_sv_trigger_expression(pr) {
            let prefix = pr.module_name;
            let tick_decl_args = join(sv_tick_decl_args(pr), ", "@);
            let tick_call_args = join(sv_tick_call_args(pr), ", "@);
            let s = sv_text(prefix, tick_decl_args, trigger, tick_call_args);
            assert(spec_generate_sv(pr) == Ok::<Seq<char>, SpecGenerateError>(s));
            reveal_strlit(") != 0) begin\n            $fatal(0, \"Failed to tick ");
            assert(") != 0) begin\n            $fatal(0, \"Failed to tick "@ =~= Seq::<char>::empty() + ") != 0) begin\n            $fatal(0, \"Failed to tick "@ + Seq::<char>::empty());
            lemma_contains_inside(("\n    import \"DPI-C\" function chandle "@ + prefix + "_new(input string module_path, input string plusarg);\n    import \"DPI-C\" function void "@ + prefix + "_free(input chandle ___instance);\n    import \"DPI-C\" function byte unsigned "@ + prefix + "_tick("@ + tick_decl_args + ");\n\n    chandle ___instance___ = null;\n\n    initial begin\n        string ___plusarg___;\n        void'($value$plusargs(\""@ + prefix + "=%s\", ___plusarg___));\n        ___instance___ = "@ + prefix + "_new($sformatf(\"%m\"), ___plusarg___);\n        if (___instance___ == null) begin\n            $fatal(0, \"Failed to create "@ + prefix + " instance.\");\n        end\n    end\n\n    final begin\n        if (___instance___ !== null) begin\n            "@ + prefix + "_free(___instance___);\n            ___instance___ = null;\n        end\n    end\n\n    always @("@ + trigger + ") begin\n        if ("@ + prefix + "_tick("@ + tick_call_args), Seq::<char>::empty(), ") != 0) begin\n            $fatal(0, \"Failed to tick "@, Seq::<char>::empty());
            lemma_contains_concat(") != 0) begin\n            $fatal(0, \"Failed to tick "@);
            assert(contains_text(s, ") != 0) begin\n            $fatal(0, \"Failed to tick "@));
    }
}

/// The generated `{module}_new` reads both of its arguments and hands them to `Instance::new`.
proof fn lemma_rs_new_reads_arguments(pr: SpecParseResult)
    ensures
        contains_text(spec_generate_rs(pr), "extern \"C\" fn "@ + pr.module_name + "_new(module_path: *const c_char, plusarg: *const c_char) -> *const Mutex<Instance> {\n    let module_path = unsafe { CStr::from_ptr(module_path) }.to_string_lossy();\n    let plusarg = unsafe { CStr::from_ptr(plusarg) }.to_string_lossy();\n    match Instance::new(&module_path, &plusarg) {"@),
{
        let prefix = pr.module_name;
        let input_members = rs_members_of(pr.ports, Direction::Input);
        let output_members = rs_members_of(pr.ports, Direction::Output);
        let tick_decl_args = join(rs_tick_decl_args(pr), ", "@);
        let input_initialisation = rs_initialisations_of(pr.ports, Direction::Input);
        let output_initialisation = rs_initialisations_of(pr.ports, Direction::Output);
        let s = rs_text(input_members, output_members, prefix, tick_decl_args, input_initialisation, output_initialisation);
        assert(spec_generate_rs(pr) == s);
        reveal_strlit("\npub ___lifetime: PhantomData<&'a ()>,\n}\n\n#[no_mangle]\nextern \"C\" fn ");
        reveal_strlit("\npub ___lifetime: PhantomData<&'a ()>,\n}\n\n#[no_mangle]\n");
        reveal_strlit("extern \"C\" fn ");
        reveal_strlit("_new(module_path: *const c_char, plusarg: *const c_char) -> *const Mutex<Instance> {\n    let module_path = unsafe { CStr::from_ptr(module_path) }.to_string_lossy();\n    let plusarg = unsafe { CStr::from_ptr(plusarg) }.to_string_lossy();\n    match Instance::new(&module_path, &plusarg) {\n        Ok(instance) => {\n            Arc::into_raw(instance)\n        }\n        Err(e) => {\n            eprintln!(\"Error in ");
        reveal_strlit("_new(module_path: *const c_char, plusarg: *const c_char) -> *const Mutex<Instance> {\n    let module_path = unsafe { CStr::from_ptr(module_path) }.to_string_lossy();\n    let plusarg = unsafe { CStr::from_ptr(plusarg) }.to_string_lossy();\n    match Instance::new(&module_path, &plusarg) {");
        reveal_strlit("\n        Ok(instance) => {\n            Arc::into_raw(instance)\n        }\n        Err(e) => {\n            eprintln!(\"Error in ");
        assert("\npub ___lifetime: PhantomData<&'a ()>,\n}\n\n#[no_mangle]\nextern \"C\" fn "@ =~= "\npub ___lifetime: PhantomData<&'a ()>,\n}\n\n#[no_mangle]\n"@ + "extern \"C\" fn "@);
        assert("_new(module_path: *const c_char, plusarg: *const c_char) -> *const Mutex<Instance> {\n    let module_path = unsafe { CStr::from_ptr(module_path) }.to_string_lossy();\n    let plusarg = unsafe { CStr::from_ptr(plusarg) }.to_string_lossy();\n    match Instance::new(&module_path, &plusarg) {\n        Ok(instance) => {\n            Arc::into_raw(instance)\n        }\n        Err(e) => {\n            eprintln!(\"Error in "@ =~= "_new(module_path: *const c_char, plusarg: *const c_char) -> *const Mutex<Instance> {\n    let module_path = unsafe { CStr::from_ptr(module_path) }.to_string_lossy();\n    let plusarg = unsafe { CStr::from_ptr(plusarg) }.to_string_lossy();\n    match Instance::new(&module_path, &plusarg) {"@ + "\n        Ok(instance) => {\n            Arc::into_raw(instance)\n        }\n        Err(e) => {\n            eprintln!(\"Error in "@);
        lemma_contains_across(("\nuse core::ffi::{c_char, CStr};\nuse core::marker::PhantomData;\nuse std::sync::{Arc, Mutex};\nuse bitvec::{slice::BitSlice, ptr::{bitslice_from_raw_parts, bitslice_from_raw_parts_mut}};\nuse super::Instance;\n\npub struct Inputs<'a> {\n"@ + input_members + "\npub ___lifetime: PhantomData<&'a ()>,\n}\n\npub struct Outputs<'a> {\n"@ + output_members), "\npub ___lifetime: PhantomData<&'a ()>,\n}\n\n#[no_mangle]\n"@, "extern \"C\" fn "@, prefix, "_new(module_path: *const c_char, plusarg: *const c_char) -> *const Mutex<Instance> {\n    let module_path = unsafe { CStr::from_ptr(module_path) }.to_string_lossy();\n    let plusarg = unsafe { CStr::from_ptr(plusarg) }.to_string_lossy();\n    match Instance::new(&module_path, &plusarg) {"@, "\n        Ok(instance) => {\n            Arc::into_raw(instance)\n        }\n        Err(e) => {\n            eprintln!(\"Error in "@);
        lemma_contains_concat("extern \"C\" fn "@ + prefix + "_new(module_path: *const c_char, plusarg: *const c_char) -> *const Mutex<Instance> {\n    let module_path = unsafe { CStr::from_ptr(module_path) }.to_string_lossy();\n    let plusarg = unsafe { CStr::from_ptr(plusarg) }.to_string_lossy();\n    match Instance::new(&module_path, &plusarg) {"@);
        assert(contains_text(s, "extern \"C\" fn "@ + prefix + "_new(module_path: *const c_char, plusarg: *const c_char) -> *const Mutex<Instance> {\n    let module_path = unsafe { CStr::from_ptr(module_path) }.to_string_lossy();\n    let plusarg = unsafe { CStr::from_ptr(plusarg) }.to_string_lossy();\n    match Instance::new(&module_path, &plusarg) {"@));
}

/// The SystemVerilog code reads the plusarg `+{module}=...`.
proof fn lemma_sv_reads_plusarg(pr: SpecParseResult)
    ensures
        spec_generate_sv(pr) matches Ok(s) ==> contains_text(s, "string ___plusarg___;\n        void'($value$plusargs(\""@ + pr.module_name + "=%s\", ___plusarg___));"@),
{
    if let Some(trigger) = spec_sv_trigger_expression(pr) {
            let prefix = pr.module_name;
            let tick_decl_args = join(sv_tick_decl_args(pr), ", "@);
            let tick_call_args = join(sv_tick_call_args(pr), ", "@);
            let s = sv_text(prefix, tick_decl_args, trigger, tick_call_args);
            assert(spec_generate_sv(pr) == Ok::<Seq<char>, SpecGenerateError>(s));
            reveal_strlit(");\n\n    chandle ___instance___ = null;\n\n    initial begin\n        string ___plusarg___;\n        void'($value$plusargs(\"");
            reveal_strlit(");\n\n    chandle ___instance___ = null;\n\n    initial begin\n        ");
            reveal_strlit("string ___plusarg___;\n        void'($value$plusargs(\"");
            reveal_strlit("=%s\", ___plusarg___));\n        ___instance___ = ");
            reveal_strlit("=%s\", ___plusarg___));");
            reveal_strlit("\n        ___instance___ = ");
            assert(");\n\n    chandle ___instance___ = null;\n\n    initial begin\n        string ___plusarg___;\n        void'($value$plusargs(\""@ =~= ");\n\n    chandle ___instance___ = null;\n\n    initial begin\n        "@ + "string ___plusarg___;\n        void'($value$plusargs(\""@);
            assert("=%s\", ___plusarg___));\n        ___instance___ = "@ =~= "=%s\", ___plusarg___));"@ + "\n        ___instance___ = "@);
            lemma_contains_across(("\n    import \"DPI-C\" function chandle "@ + prefix + "_new(input string module_path, input string plusarg);\n    import \"DPI-C\" function void "@ + prefix + "_free(input chandle ___instance);\n    import \"DPI-C\" function byte unsigned "@ + prefix + "_tick("@ + tick_decl_args), ");\n\n    chandle ___instance___ = null;\n\n    initial begin\n        "@, "string ___plusarg___;\n        void'($value$plusargs(\""@, prefix, "=%s\", ___plusarg___));"@, "\n        ___instance___ = "@);
            lemma_contains_concat("string ___plusarg___;\n        void'($value$plusargs(\""@ + prefix + "=%s\", ___plusarg___));"@);
            assert(contains_text(s, "string ___plusarg___;\n        void'($value$plusargs(\""@ + prefix + "=%s\", ___plusarg___));"@));
    }
}

/// The SystemVerilog code passes the module path and the plusarg to `{module}_new`.
proof fn lemma_sv_new_gets_plusarg(pr: SpecParseResult)
    ensures
        spec_generate_sv(pr) matches Ok(s) ==> contains_text(s, "___instance___ = "@ + pr.module_name + "_new($sformatf(\"%m\"), ___plusarg___);"@),
{
    if let Some(trigger) = spec_sv_trigger_expression(pr) {
            let prefix = pr.module_name;
            let tick_decl_args = join(sv_tick_decl_args(pr), ", "@);
            let tick_call_args = join(sv_tick_call_args(pr), ", "@);
            let s = sv_text(prefix, tick_decl_args, trigger, tick_call_args);
            assert(spec_generate_sv(pr) == Ok::<Seq<char>, SpecGenerateError>(s));
            reveal_strlit("=%s\", ___plusarg___));\n        ___instance___ = ");
            reveal_strlit("=%s\", ___plusarg___));\n        ");
            reveal_strlit("___instance___ = ");
            reveal_strlit("_new($sformatf(\"%m\"), ___plusarg___);\n        if (___instance___ == null) begin\n            $fatal(0, \"Failed to create ");
            reveal_strlit("_new($sformatf(\"%m\"), ___plusarg___);");
            reveal_strlit("\n        if (___instance___ == null) begin\n            $fatal(0, \"Failed to create ");
            assert("=%s\", ___plusarg___));\n        ___instance___ = "@ =~= "=%s\", ___plusarg___));\n        "@ + "___instance___ = "@);
            assert("_new($sformatf(\"%m\"), ___plusarg___);\n        if (___instance___ == null) begin\n            $fatal(0, \"Failed to create "@ =~= "_new($sformatf(\"%m\"), ___plusarg___);"@ + "\n        if (___instance___ == null) begin\n            $fatal(0, \"Failed to create "@);
            lemma_contains_across(("\n    import \"DPI-C\" function chandle "@ + prefix + "_new(input string module_path, input string plusarg);\n    import \"DPI-C\" function void "@ + prefix + "_free(input chandle ___instance);\n    import \"DPI-C\" function byte unsigned "@ + prefix + "_tick("@ + tick_decl_args + ");\n\n    chandle ___instance___ = null;\n\n    initial begin\n        string ___plusarg___;\n        void'($value$plusargs(\""@ + prefix), "=%s\", ___plusarg___));\n        "@, "___instance___ = "@, prefix, "_new($sformatf(\"%m\"), ___plusarg___);"@, "\n        if (___instance___ == null) begin\n            $fatal(0, \"Failed to create "@);
            lemma_contains_concat("___instance___ = "@ + prefix + "_new($sformatf(\"%m\"), ___plusarg___);"@);
            assert(contains_text(s, "___instance___ = "@ + prefix + "_new($sformatf(\"%m\"), ___plusarg___);"@));
    }
}

/// The tick function of the generated Rust code answers `ReturnCode::Success`,
/// which is 0, when `Instance::tick` succeeds and `ReturnCode::Failure`, which
/// is 1, when it fails; the SystemVerilog code calls `{module}_tick` and stops
/// the simulation when it answers anything but 0.
pub proof fn lemma_tick_return_codes(pr: SpecParseResult)
    ensures
        contains_text(spec_generate_rs(pr), "#[repr(u8)]\nenum ReturnCode {\n    Success = 0,\n    Failure = 1,\n}"@),
        contains_text(spec_generate_rs(pr), "match guard.tick(&inputs, &mut outputs) {\n            Ok(()) => {\n                ReturnCode::Success\n            }\n            Err(e) => {\n                eprintln!(\"Error in "@ + pr.module_name + "_tick: {e:?}\");\n                ReturnCode::Failure\n            }"@),
        spec_generate_sv(pr) matches Ok(s) ==> contains_text(s, "if ("@ + pr.module_name + "_tick("@) && contains_text(s, ") != 0) begin\n            $fatal(0, \"Failed to tick "@),
{
    lemma_rs_return_code_values(pr);
    lemma_rs_tick_result_codes(pr);
    lemma_sv_tick_called(pr);
    lemma_sv_tick_checked(pr);
}

/// The generated `{module}_new` function reads its `module_path` and its
/// `plusarg` argument, each through `CStr::from_ptr`, and hands both to
/// `Instance::new` in that order; the SystemVerilog code reads the plusarg
/// `+{module}=...` into `___plusarg___` and passes the module's path
/// (`%m`) and that text to `{module}_new`.
pub proof fn lemma_new_gets_module_path_and_plusarg(pr: SpecParseResult)
    ensures
        contains_text(spec_generate_rs(pr), "extern \"C\" fn "@ + pr.module_name + "_new(module_path: *const c_char, plusarg: *const c_char) -> *const Mutex<Instance> {\n    let module_path = unsafe { CStr::from_ptr(module_path) }.to_string_lossy();\n    let plusarg = unsafe { CStr::from_ptr(plusarg) }.to_string_lossy();\n    match Instance::new(&module_path, &plusarg) {"@),
        spec_generate_sv(pr) matches Ok(s) ==> contains_text(s, "string ___plusarg___;\n        void'($value$plusargs(\""@ + pr.module_name + "=%s\", ___plusarg___));"@)
            && contains_text(s, "___instance___ = "@ + pr.module_name + "_new($sformatf(\"%m\"), ___plusarg___);"@),
{
    lemma_rs_new_reads_arguments(pr);
    lemma_sv_reads_plusarg(pr);
    lemma_sv_new_gets_plusarg(pr);
}

/// The `always` block of the SystemVerilog code waits for the trigger
/// expression.
proof fn lemma_always_waits_for_trigger(pr: SpecParseResult)
    ensures
        spec_sv_trigger_expression(pr) matches Some(t) ==> spec_generate_sv(pr) matches Ok(s)
            && contains_text(s, "always @("@ + t + ") begin"@),
{
    if let Some(trigger) = spec_sv_trigger_expression(pr) {
        let prefix = pr.module_name;
        let tick_decl_args = join(sv_tick_decl_args(pr), ", "@);
        let tick_call_args = join(sv_tick_call_args(pr), ", "@);
        let s = sv_text(prefix, tick_decl_args, trigger, tick_call_args);
        assert(spec_generate_sv(pr) == Ok::<Seq<char>, SpecGenerateError>(s));
        reveal_strlit("_free(___instance___);\n            ___instance___ = null;\n        end\n    end\n\n    always @(");
        reveal_strlit("_free(___instance___);\n            ___instance___ = null;\n        end\n    end\n\n    ");
        reveal_strlit("always @(");
        reveal_strlit(") begin\n        if (");
        reveal_strlit(") begin");
        reveal_strlit("\n        if (");
        assert("_free(___instance___);\n            ___instance___ = null;\n        end\n    end\n\n    always @("@ =~= "_free(___instance___);\n            ___instance___ = null;\n        end\n    end\n\n    "@ + "always @("@);
        assert(") begin\n        if ("@ =~= ") begin"@ + "\n        if ("@);
        lemma_contains_across(("\n    import \"DPI-C\" function chandle "@ + prefix + "_new(input string module_path, input string plusarg);\n    import \"DPI-C\" function void "@ + prefix + "_free(input chandle ___instance);\n    import \"DPI-C\" function byte unsigned "@ + prefix + "_tick("@ + tick_decl_args + ");\n\n    chandle ___instance___ = null;\n\n    initial begin\n        string ___plusarg___;\n        void'($value$plusargs(\""@ + prefix + "=%s\", ___plusarg___));\n        ___instance___ = "@ + prefix + "_new($sformatf(\"%m\"), ___plusarg___);\n        if (___instance___ == null) begin\n            $fatal(0, \"Failed to create "@ + prefix + " instance.\");\n        end\n    end\n\n    final begin\n        if (___instance___ !== null) begin\n            "@ + prefix), "_free(___instance___);\n            ___instance___ = null;\n        end\n    end\n\n    "@, "always @("@, trigger, ") begin"@, "\n        if ("@);
        lemma_contains_concat("always @("@ + trigger + ") begin"@);
        assert(contains_text(s, "always @("@ + trigger + ") begin"@));
    }
}

// ---------------------------------------------------------------------
// The trigger of the `always` block.
// ---------------------------------------------------------------------

/// The search for the first trigger port gives the first port that carries a
/// trigger attribute.
proof fn lemma_first_trigger_port_is(ports: Seq<SpecPort>, i: int)
    requires
        0 <= i < ports.len(),
        ports[i].trigger,
        forall|j: int| 0 <= j < i ==> !(#[trigger] ports[j]).trigger,
    ensures
        first_trigger_port(ports) == Some(ports[i]),
    decreases i,
{
    if i > 0 {
        let rest = ports.drop_first();
        assert(rest[i - 1] == ports[i]);
        assert forall|j: int| 0 <= j < i - 1 implies !(#[trigger] rest[j]).trigger by {
            assert(rest[j] == ports[j + 1]);
        }
        assert(!ports[0].trigger);
        lemma_first_trigger_port_is(rest, i - 1);
    }
}

/// Without a trigger attribute on the module, the SystemVerilog `always`
/// block waits for `posedge` of the first port that carries a trigger
/// attribute, whatever the ports before it are.
pub proof fn lemma_first_trigger_port_clocks(pr: SpecParseResult, i: int)
    requires
        pr.trigger is None,
        0 <= i < pr.ports.len(),
        pr.ports[i].trigger,
        forall|j: int| 0 <= j < i ==> !(#[trigger] pr.ports[j]).trigger,
    ensures
        spec_sv_trigger_expression(pr) == Some("posedge "@ + pr.ports[i].name),
        spec_generate_sv(pr) matches Ok(s) && contains_text(s, "always @(posedge "@ + pr.ports[i].name + ") begin"@),
{
    lemma_first_trigger_port_is(pr.ports, i);
    lemma_always_waits_for_trigger(pr);
    reveal_strlit("always @(");
    reveal_strlit("posedge ");
    reveal_strlit("always @(posedge ");
    assert("always @("@ + ("posedge "@ + pr.ports[i].name) + ") begin"@ =~= "always @(posedge "@ + pr.ports[i].name
        + ") begin"@);
}

/// With a trigger attribute on the module, the SystemVerilog `always` block
/// waits for the attribute's text.
pub proof fn lemma_module_trigger_clocks(pr: SpecParseResult, t: Seq<char>)
    requires
        pr.trigger == Some(t),
    ensures
        spec_generate_sv(pr) matches Ok(s) && contains_text(s, "always @("@ + t + ") begin"@),
{
    lemma_always_waits_for_trigger(pr);
}

// ---------------------------------------------------------------------
// Names and attributes.
// ---------------------------------------------------------------------

/// Every character is one that a Rust identifier may hold: an ASCII letter
/// of either case, an ASCII digit, `_`, the `#` of a raw identifier, or a
/// character outside ASCII.
pub open spec fn identifier_text(s: Seq<char>) -> bool {
    forall|i: int| 0 <= i < s.len() ==> {
        let c = #[trigger] s[i];
        ('a' <= c && c <= 'z') || ('A' <= c && c <= 'Z') || ('0' <= c && c <= '9') || c == '_' || c == '#'
            || c >= '\u{80}'
    }
}

/// The name test accepts exactly the texts made of characters that a Rust
/// identifier may hold; in particular every identifier of ASCII letters of
/// either case, digits and underscores passes it.
pub proof fn lemma_identifiers_are_names(s: Seq<char>)
    ensures
        is_name(s) <==> identifier_text(s),
{
}

/// A module whose name and port names are all made of characters that a Rust
/// identifier may hold has plain names, so `generate` refuses it for none of
/// its names: whether it succeeds then rests on the trigger and on whether
/// the code parses alone.
pub proof fn lemma_identifier_names_are_plain(pr: SpecParseResult)
    ensures
        plain_names(pr) <==> identifier_text(pr.module_name) && forall|i: int|
            0 <= i < pr.ports.len() ==> identifier_text(#[trigger] pr.ports[i].name),
{
}

/// The attribute search over the first `n` specs depends on those specs only.
proof fn lemma_attribute_prefix_agree(s: Seq<AttributeSpec>, t: Seq<AttributeSpec>, name: Seq<char>, n: nat)
    requires
        n <= s.len(),
        n <= t.len(),
        forall|k: int| 0 <= k < n ==> s[k] == t[k],
    ensures
        spec_attribute_prefix(s, name, n) == spec_attribute_prefix(t, name, n),
    decreases n,
{
    if n > 0 {
        lemma_attribute_prefix_agree(s, t, name, (n - 1) as nat);
    }
}

/// The search over specs followed by one more is one step after the search
/// over the specs.
proof fn lemma_attribute_push(s: Seq<AttributeSpec>, y: AttributeSpec, name: Seq<char>)
    ensures
        spec_get_attribute(s.push(y), name) == match spec_get_attribute(s, name) {
            Err(e) => Err(e),
            Ok(acc) => spec_attribute_step(acc, y, name),
        },
{
    lemma_attribute_prefix_agree(s.push(y), s, name, s.len());
}

/// An attribute of another (known) name does not change what the search for
/// `name` finds: inserting it anywhere among the specs leaves the result as
/// it was. So `(* trigger = "posedge clk", keep *)` gives the module the
/// trigger of `(* trigger = "posedge clk" *)`, and `(* trigger, keep *)`
/// marks a port as `(* trigger *)` does.
pub proof fn lemma_other_attribute_ignored(
    a: Seq<AttributeSpec>,
    x: AttributeSpec,
    b: Seq<AttributeSpec>,
    name: Seq<char>,
)
    requires
        x.name matches Some(id) && id@ != name,
    ensures
        spec_get_attribute(a + seq![x] + b, name) == spec_get_attribute(a + b, name),
        name == "trigger"@ ==> spec_port_trigger(a + seq![x] + b) == spec_port_trigger(a + b),
    decreases b.len(),
{
    if b.len() == 0 {
        assert(a + seq![x] + b =~= a.push(x));
        assert(a + b =~= a);
        lemma_attribute_push(a, x, name);
    } else {
        let b1 = b.drop_last();
        let y = b.last();
        lemma_other_attribute_ignored(a, x, b1, name);
        assert(a + seq![x] + b =~= (a + seq![x] + b1).push(y));
        assert(a + b =~= (a + b1).push(y));
        lemma_attribute_push(a + seq![x] + b1, y, name);
        lemma_attribute_push(a + b1, y, name);
    }
}

} // verus!
