//! Analysis of a SystemVerilog source reduced to its module declarations:
//! finds the single ANSI module, its `trigger` attribute and its ports, and
//! checks that the result can be bound to Rust (`validate`).

use vstd::prelude::*;
use vstd::string::*;
use vstd::utf8::encode_utf8;

use crate::syntax::{
    AnsiModule, AnsiPortDeclaration, AnsiPortItem, AttributeSpec, ConstantExpression, DataType,
    DataTypeOrImplicit, IntegerVectorType, ModuleDeclaration, PackedDimension, PortDirection,
    PortList, VarDataType, VariablePortDeclaration,
};
use crate::text::{
    contains_text, parse_u64, spec_parse_u64, spec_unescape, str_contains, str_eq, unescape, IntErrorKind,
};

verus! {

/// Port direction.
#[derive(Debug, Clone, Copy, PartialEq, Eq, Structural)]
pub enum Direction {
    /// Input to the SV module and the tick function.
    Input,
    /// Output from the SV module and the tick function.
    Output,
}

/// A port of the module.
#[derive(Debug, PartialEq, Eq)]
pub struct Port {
    /// Port name. This is an identifier.
    pub name: String,
    /// Port direction (input or output).
    pub direction: Direction,
    /// Width of the port's inner dimension (this can be up to 128).
    pub size_inner: u64,
    /// Width of the port's outer dimension (if specified).
    pub size_outer: Option<u64>,
    /// True if there is a (* trigger *) attribute for this port.
    pub trigger: bool,
}

/// Result of parsing the .sv file. It should contain a single module
/// with some ports.
#[derive(Debug, PartialEq, Eq)]
pub struct ParseResult {
    pub module_name: String,
    /// (* trigger="foo" *) attribute if present.
    pub trigger: Option<String>,
    pub ports: Vec<Port>,
}

/// A port, with its name as a sequence of characters.
pub struct SpecPort {
    pub name: Seq<char>,
    pub direction: Direction,
    pub size_inner: u64,
    pub size_outer: Option<u64>,
    pub trigger: bool,
}

/// A parse result, with its texts as sequences of characters.
pub struct SpecParseResult {
    pub module_name: Seq<char>,
    pub trigger: Option<Seq<char>>,
    pub ports: Seq<SpecPort>,
}

impl View for Port {
    type V = SpecPort;

    open spec fn view(&self) -> SpecPort {
        SpecPort {
            name: self.name@,
            direction: self.direction,
            size_inner: self.size_inner,
            size_outer: self.size_outer,
            trigger: self.trigger,
        }
    }
}

pub open spec fn opt_text_view(t: Option<String>) -> Option<Seq<char>> {
    match t {
        Some(s) => Some(s@),
        None => None,
    }
}

pub open spec fn ports_view(ports: Seq<Port>) -> Seq<SpecPort> {
    ports.map_values(|p: Port| p@)
}

impl View for ParseResult {
    type V = SpecParseResult;

    open spec fn view(&self) -> SpecParseResult {
        SpecParseResult {
            module_name: self.module_name@,
            trigger: opt_text_view(self.trigger),
            ports: ports_view(self.ports@),
        }
    }
}

/// Why a source is rejected by the analysis.
#[derive(Debug, PartialEq, Eq)]
pub enum ParseError {
    /// "Non-ansi module declarations not supported"
    NonAnsiModule,
    /// "more than one module declaration found"
    MultipleModules,
    /// "no module declarations found"
    NoModule,
    /// "error getting string": the span of a module name or an attribute name is missing.
    MissingText,
    /// "couldn't find integer span in source"
    MissingIntegerText,
    /// "couldn't find text span in source"
    MissingStringText,
    /// "parse error: couldn't find port name span in source"
    MissingPortNameText,
    /// "trigger attribute on module must specify a string value"
    ModuleTriggerNotString,
    /// "port trigger attribute cannot have a value"
    PortTriggerHasValue,
    /// "duplicate attributes: {name}"
    DuplicateAttribute(String),
    /// "expected unsigned integer literal"
    ExpectedUnsignedLiteral,
    /// "unexpected time literal"
    UnexpectedTimeLiteral,
    /// "unexpected unbased unsized literal"
    UnexpectedUnbasedUnsizedLiteral,
    /// The text of an unsigned number is not the decimal form of a `u64`.
    InvalidInteger(IntErrorKind),
    /// "Invalid string literal (too short): {text:?}"
    StringLiteralTooShort(String),
    /// "Invalid string literal (doesn't start or end with '\"'): {text:?}"
    StringLiteralUnquoted(String),
    /// "Invalid escape sequence in string literal: {text:?}"
    InvalidEscape(String),
    /// "right part of range must be 0 (got {right})"
    RangeRightNotZero(u64),
    /// "expected integer constants"
    ExpectedIntegerConstants,
    /// "port packed dimension cannot be unsized"
    UnsizedDimension,
    /// "all ports must be explicitly declared as `var` ports"
    PortNotVariable,
    /// "Missing variable port header"
    MissingPortHeader,
    /// "Missing port direction"
    MissingPortDirection,
    /// "inout not allowed"
    InoutPort,
    /// "Ref not allowed"
    RefPort,
    /// "port cannot have unpacked dimensions"
    UnpackedDimensions,
    /// "port must have direction and type specified explicitly"
    MissingPortType,
    /// "'var' must be explicitly used in port"
    VarKeywordMissing,
    /// "Type must be bit or logic not reg"
    RegType,
    /// "ports can't be signed"
    SignedPort,
    /// "ports must have a maximum of two packed dimensions"
    TooManyDimensions,
    /// "port data type must be vector (e.g. `input var logic[3:0] i_data`)"
    NotVector,
    /// "port data type cannot be implicit"
    ImplicitDataType,
}

/// The outcomes of the analysis that are not a result. Besides the errors
/// of `ParseError` it has `WidthOverflow`: a packed dimension `[N:0]` with
/// `N == u64::MAX`, whose width `N + 1` does not fit in a `u64`.
pub enum SpecParseError {
    NonAnsiModule,
    MultipleModules,
    NoModule,
    MissingText,
    MissingIntegerText,
    MissingStringText,
    MissingPortNameText,
    ModuleTriggerNotString,
    PortTriggerHasValue,
    DuplicateAttribute(Seq<char>),
    ExpectedUnsignedLiteral,
    UnexpectedTimeLiteral,
    UnexpectedUnbasedUnsizedLiteral,
    InvalidInteger(IntErrorKind),
    StringLiteralTooShort(Seq<char>),
    StringLiteralUnquoted(Seq<char>),
    InvalidEscape(Seq<char>),
    RangeRightNotZero(u64),
    ExpectedIntegerConstants,
    UnsizedDimension,
    PortNotVariable,
    MissingPortHeader,
    MissingPortDirection,
    InoutPort,
    RefPort,
    UnpackedDimensions,
    MissingPortType,
    VarKeywordMissing,
    RegType,
    SignedPort,
    TooManyDimensions,
    NotVector,
    ImplicitDataType,
    WidthOverflow,
}

impl View for ParseError {
    type V = SpecParseError;

    open spec fn view(&self) -> SpecParseError {
        match self {
            ParseError::NonAnsiModule => SpecParseError::NonAnsiModule,
            ParseError::MultipleModules => SpecParseError::MultipleModules,
            ParseError::NoModule => SpecParseError::NoModule,
            ParseError::MissingText => SpecParseError::MissingText,
            ParseError::MissingIntegerText => SpecParseError::MissingIntegerText,
            ParseError::MissingStringText => SpecParseError::MissingStringText,
            ParseError::MissingPortNameText => SpecParseError::MissingPortNameText,
            ParseError::ModuleTriggerNotString => SpecParseError::ModuleTriggerNotString,
            ParseError::PortTriggerHasValue => SpecParseError::PortTriggerHasValue,
            ParseError::DuplicateAttribute(n) => SpecParseError::DuplicateAttribute(n@),
            ParseError::ExpectedUnsignedLiteral => SpecParseError::ExpectedUnsignedLiteral,
            ParseError::UnexpectedTimeLiteral => SpecParseError::UnexpectedTimeLiteral,
            ParseError::UnexpectedUnbasedUnsizedLiteral => SpecParseError::UnexpectedUnbasedUnsizedLiteral,
            ParseError::InvalidInteger(k) => SpecParseError::InvalidInteger(*k),
            ParseError::StringLiteralTooShort(t) => SpecParseError::StringLiteralTooShort(t@),
            ParseError::StringLiteralUnquoted(t) => SpecParseError::StringLiteralUnquoted(t@),
            ParseError::InvalidEscape(t) => SpecParseError::InvalidEscape(t@),
            ParseError::RangeRightNotZero(r) => SpecParseError::RangeRightNotZero(*r),
            ParseError::ExpectedIntegerConstants => SpecParseError::ExpectedIntegerConstants,
            ParseError::UnsizedDimension => SpecParseError::UnsizedDimension,
            ParseError::PortNotVariable => SpecParseError::PortNotVariable,
            ParseError::MissingPortHeader => SpecParseError::MissingPortHeader,
            ParseError::MissingPortDirection => SpecParseError::MissingPortDirection,
            ParseError::InoutPort => SpecParseError::InoutPort,
            ParseError::RefPort => SpecParseError::RefPort,
            ParseError::UnpackedDimensions => SpecParseError::UnpackedDimensions,
            ParseError::MissingPortType => SpecParseError::MissingPortType,
            ParseError::VarKeywordMissing => SpecParseError::VarKeywordMissing,
            ParseError::RegType => SpecParseError::RegType,
            ParseError::SignedPort => SpecParseError::SignedPort,
            ParseError::TooManyDimensions => SpecParseError::TooManyDimensions,
            ParseError::NotVector => SpecParseError::NotVector,
            ParseError::ImplicitDataType => SpecParseError::ImplicitDataType,
        }
    }
}

/// How an analysis step ends when it does not give a value: a rejection, or
/// a width that does not fit in a `u64`.
pub enum Failure {
    Rejected(ParseError),
    WidthOverflow,
}

impl View for Failure {
    type V = SpecParseError;

    open spec fn view(&self) -> SpecParseError {
        match self {
            Failure::Rejected(e) => e@,
            Failure::WidthOverflow => SpecParseError::WidthOverflow,
        }
    }
}

/// The value of a constant that the analysis accepts.
pub enum SimpleConstant {
    UnsignedDecimal(u64),
    String(String),
}

pub enum SpecSimpleConstant {
    UnsignedDecimal(u64),
    String(Seq<char>),
}

impl View for SimpleConstant {
    type V = SpecSimpleConstant;

    open spec fn view(&self) -> SpecSimpleConstant {
        match self {
            SimpleConstant::UnsignedDecimal(v) => SpecSimpleConstant::UnsignedDecimal(*v),
            SimpleConstant::String(s) => SpecSimpleConstant::String(s@),
        }
    }
}

/// The view of a result whose error is a `Failure`.
pub open spec fn outcome<T: View>(r: Result<T, Failure>) -> Result<T::V, SpecParseError> {
    match r {
        Ok(v) => Ok(v@),
        Err(f) => Err(f@),
    }
}

/// The view of a result whose error is a `ParseError`.
pub open spec fn parse_outcome<T: View>(r: Result<T, ParseError>) -> Result<T::V, SpecParseError> {
    match r {
        Ok(v) => Ok(v@),
        Err(e) => Err(e@),
    }
}

// ---------------------------------------------------------------------
// What the analysis computes.
// ---------------------------------------------------------------------

/// Decodes the source text of a string literal such as `"foo"`: the quotes
/// are stripped and the escape sequences are replaced (`spec_unescape`). The
/// text is too short when its UTF-8 encoding has fewer than two bytes.
pub open spec fn spec_decode_string_literal(s: Seq<char>) -> Result<Seq<char>, SpecParseError> {
    if encode_utf8(s).len() < 2 {
        Err(SpecParseError::StringLiteralTooShort(s))
    } else if s.len() >= 2 && s[0] == '"' && s.last() == '"' {
        match spec_unescape(s.subrange(1, s.len() - 1)) {
            Some(t) => Ok(t),
            None => Err(SpecParseError::InvalidEscape(s)),
        }
    } else {
        Err(SpecParseError::StringLiteralUnquoted(s))
    }
}

/// The unsigned number or string of a constant expression, which must be a
/// plain decimal number or string literal.
pub open spec fn spec_simple_constant(e: ConstantExpression) -> Result<SpecSimpleConstant, SpecParseError> {
    match e {
        ConstantExpression::UnsignedNumber(None) => Err(SpecParseError::MissingIntegerText),
        ConstantExpression::UnsignedNumber(Some(t)) => match spec_parse_u64(t@) {
            Ok(v) => Ok(SpecSimpleConstant::UnsignedDecimal(v)),
            Err(k) => Err(SpecParseError::InvalidInteger(k)),
        },
        ConstantExpression::StringLiteral(None) => Err(SpecParseError::MissingStringText),
        ConstantExpression::StringLiteral(Some(t)) => match spec_decode_string_literal(t@) {
            Ok(s) => Ok(SpecSimpleConstant::String(s)),
            Err(e) => Err(e),
        },
        ConstantExpression::TimeLiteral => Err(SpecParseError::UnexpectedTimeLiteral),
        ConstantExpression::UnbasedUnsizedLiteral => Err(SpecParseError::UnexpectedUnbasedUnsizedLiteral),
        ConstantExpression::Other => Err(SpecParseError::ExpectedUnsignedLiteral),
    }
}

/// The width of a packed dimension `[left:0]`, that is `left + 1`.
pub open spec fn spec_packed_dimension_width(d: PackedDimension) -> Result<u64, SpecParseError> {
    match d {
        PackedDimension::Unsized => Err(SpecParseError::UnsizedDimension),
        PackedDimension::Range(l, r) => match spec_simple_constant(l) {
            Err(e) => Err(e),
            Ok(left) => match spec_simple_constant(r) {
                Err(e) => Err(e),
                Ok(right) => match (left, right) {
                    (SpecSimpleConstant::UnsignedDecimal(a), SpecSimpleConstant::UnsignedDecimal(b)) => {
                        if b != 0 {
                            Err(SpecParseError::RangeRightNotZero(b))
                        } else if a == u64::MAX {
                            Err(SpecParseError::WidthOverflow)
                        } else {
                            Ok((a + 1) as u64)
                        }
                    },
                    _ => Err(SpecParseError::ExpectedIntegerConstants),
                },
            },
        },
    }
}

pub open spec fn attribute_view(a: Option<Option<SimpleConstant>>) -> Option<Option<SpecSimpleConstant>> {
    match a {
        None => None,
        Some(None) => Some(None),
        Some(Some(c)) => Some(Some(c@)),
    }
}

/// One step of the attribute search: `acc` is what the earlier specs gave.
pub open spec fn spec_attribute_step(
    acc: Option<Option<SpecSimpleConstant>>,
    spec: AttributeSpec,
    name: Seq<char>,
) -> Result<Option<Option<SpecSimpleConstant>>, SpecParseError> {
    match spec.name {
        None => Err(SpecParseError::MissingText),
        Some(id) => if id@ == name {
            if acc is Some {
                Err(SpecParseError::DuplicateAttribute(name))
            } else {
                match spec.value {
                    None => Ok(Some(None)),
                    Some(v) => match spec_simple_constant(v) {
                        Ok(c) => Ok(Some(Some(c))),
                        Err(e) => Err(e),
                    },
                }
            }
        } else {
            Ok(acc)
        },
    }
}

/// The attribute search over the first `n` specs.
pub open spec fn spec_attribute_prefix(specs: Seq<AttributeSpec>, name: Seq<char>, n: nat)
    -> Result<Option<Option<SpecSimpleConstant>>, SpecParseError>
    decreases n,
{
    if n == 0 {
        Ok(None)
    } else {
        match spec_attribute_prefix(specs, name, (n - 1) as nat) {
            Err(e) => Err(e),
            Ok(acc) => spec_attribute_step(acc, specs[n - 1], name),
        }
    }
}

/// The attribute called `name` among `specs`: `None` if absent, `Some(None)`
/// if it has no value, `Some(Some(c))` if its value is the constant `c`. Every
/// spec's name must be known, and the attribute may occur only once.
pub open spec fn spec_get_attribute(specs: Seq<AttributeSpec>, name: Seq<char>)
    -> Result<Option<Option<SpecSimpleConstant>>, SpecParseError>
{
    spec_attribute_prefix(specs, name, specs.len())
}

/// Whether a port carries a valueless `(* trigger *)` attribute.
pub open spec fn spec_port_trigger(attributes: Seq<AttributeSpec>) -> Result<bool, SpecParseError> {
    match spec_get_attribute(attributes, "trigger"@) {
        Err(e) => Err(e),
        Ok(None) => Ok(false),
        Ok(Some(None)) => Ok(true),
        Ok(Some(Some(_))) => Err(SpecParseError::PortTriggerHasValue),
    }
}

/// The direction of a variable port, which must be `input` or `output`.
pub open spec fn spec_direction(v: VariablePortDeclaration) -> Result<Direction, SpecParseError> {
    match v.header {
        None => Err(SpecParseError::MissingPortHeader),
        Some(h) => match h.direction {
            None => Err(SpecParseError::MissingPortDirection),
            Some(PortDirection::Input) => Ok(Direction::Input),
            Some(PortDirection::Output) => Ok(Direction::Output),
            Some(PortDirection::Inout) => Err(SpecParseError::InoutPort),
            Some(PortDirection::Ref) => Err(SpecParseError::RefPort),
        },
    }
}

/// Inner and outer width of a port from its packed dimensions: none gives a
/// single bit, one gives the inner width, two give the outer and the inner.
pub open spec fn spec_dimension_sizes(dims: Seq<PackedDimension>) -> Result<(u64, Option<u64>), SpecParseError> {
    if dims.len() == 0 {
        Ok((1, None))
    } else if dims.len() == 1 {
        match spec_packed_dimension_width(dims[0]) {
            Err(e) => Err(e),
            Ok(w) => Ok((w, None)),
        }
    } else if dims.len() == 2 {
        match spec_packed_dimension_width(dims[1]) {
            Err(e) => Err(e),
            Ok(inner) => match spec_packed_dimension_width(dims[0]) {
                Err(e) => Err(e),
                Ok(outer) => Ok((inner, Some(outer))),
            },
        }
    } else {
        Err(SpecParseError::TooManyDimensions)
    }
}

/// The widths of a port whose type must be `var bit` or `var logic`, unsigned,
/// with at most two packed dimensions.
pub open spec fn spec_port_sizes(t: VarDataType) -> Result<(u64, Option<u64>), SpecParseError> {
    match t {
        VarDataType::DataType => Err(SpecParseError::VarKeywordMissing),
        VarDataType::Var(DataTypeOrImplicit::Implicit) => Err(SpecParseError::ImplicitDataType),
        VarDataType::Var(DataTypeOrImplicit::DataType(DataType::Other)) => Err(SpecParseError::NotVector),
        VarDataType::Var(DataTypeOrImplicit::DataType(DataType::Vector { vector_type, signed, dimensions })) => {
            if vector_type == IntegerVectorType::Reg {
                Err(SpecParseError::RegType)
            } else if signed {
                Err(SpecParseError::SignedPort)
            } else {
                spec_dimension_sizes(dimensions@)
            }
        },
    }
}

/// The port of a port item.
pub open spec fn spec_port(item: AnsiPortItem) -> Result<SpecPort, SpecParseError> {
    match spec_port_trigger(item.attributes@) {
        Err(e) => Err(e),
        Ok(trigger) => match item.declaration {
            AnsiPortDeclaration::Variable(v) => match v.name {
                None => Err(SpecParseError::MissingPortNameText),
                Some(name) => match spec_direction(v) {
                    Err(e) => Err(e),
                    Ok(direction) => if v.has_unpacked_dimensions {
                        Err(SpecParseError::UnpackedDimensions)
                    } else {
                        match v.header {
                            None => Err(SpecParseError::MissingPortType),
                            Some(h) => match spec_port_sizes(h.data_type) {
                                Err(e) => Err(e),
                                Ok(sizes) => Ok(SpecPort {
                                    name: name@,
                                    direction,
                                    size_inner: sizes.0,
                                    size_outer: sizes.1,
                                    trigger,
                                }),
                            },
                        }
                    },
                },
            },
            _ => Err(SpecParseError::PortNotVariable),
        },
    }
}

/// The ports of the first `n` items.
pub open spec fn spec_ports_prefix(items: Seq<AnsiPortItem>, n: nat) -> Result<Seq<SpecPort>, SpecParseError>
    decreases n,
{
    if n == 0 {
        Ok(Seq::empty())
    } else {
        match spec_ports_prefix(items, (n - 1) as nat) {
            Err(e) => Err(e),
            Ok(ports) => match spec_port(items[n - 1]) {
                Err(e) => Err(e),
                Ok(p) => Ok(ports.push(p)),
            },
        }
    }
}

/// The ports of a port list, in declaration order.
pub open spec fn spec_port_list(list: PortList) -> Result<Seq<SpecPort>, SpecParseError> {
    match list {
        PortList::Ports(items) => spec_ports_prefix(items@, items@.len()),
        _ => Ok(Seq::empty()),
    }
}

/// The module-level trigger: absent, or a string value.
pub open spec fn spec_module_trigger(a: Option<Option<SpecSimpleConstant>>) -> Result<Option<Seq<char>>, SpecParseError> {
    match a {
        None => Ok(None),
        Some(Some(SpecSimpleConstant::String(s))) => Ok(Some(s)),
        _ => Err(SpecParseError::ModuleTriggerNotString),
    }
}

/// The analysis of one ANSI module.
pub open spec fn spec_module(m: AnsiModule) -> Result<SpecParseResult, SpecParseError> {
    match m.name {
        None => Err(SpecParseError::MissingText),
        Some(name) => match spec_get_attribute(m.attributes@, "trigger"@) {
            Err(e) => Err(e),
            Ok(a) => match spec_module_trigger(a) {
                Err(e) => Err(e),
                Ok(trigger) => match spec_port_list(m.ports) {
                    Err(e) => Err(e),
                    Ok(ports) => Ok(SpecParseResult { module_name: name@, trigger, ports }),
                },
            },
        },
    }
}

/// The analysis of the first `n` module declarations: the module found so far, if any.
pub open spec fn spec_modules_prefix(items: Seq<ModuleDeclaration>, n: nat)
    -> Result<Option<SpecParseResult>, SpecParseError>
    decreases n,
{
    if n == 0 {
        Ok(None)
    } else {
        match spec_modules_prefix(items, (n - 1) as nat) {
            Err(e) => Err(e),
            Ok(acc) => match items[n - 1] {
                ModuleDeclaration::NonAnsi => Err(SpecParseError::NonAnsiModule),
                ModuleDeclaration::Ansi(m) => if acc is Some {
                    Err(SpecParseError::MultipleModules)
                } else {
                    match spec_module(m) {
                        Err(e) => Err(e),
                        Ok(r) => Ok(Some(r)),
                    }
                },
            },
        }
    }
}

/// The analysis of a source: it must declare exactly one module, an ANSI one.
pub open spec fn spec_analyze(items: Seq<ModuleDeclaration>) -> Result<SpecParseResult, SpecParseError> {
    match spec_modules_prefix(items, items.len()) {
        Err(e) => Err(e),
        Ok(None) => Err(SpecParseError::NoModule),
        Ok(Some(r)) => Ok(r),
    }
}


// ---------------------------------------------------------------------
// Lemmas on the analysis.
// ---------------------------------------------------------------------

/// Each character takes at least one byte in UTF-8; a text of one character
/// takes one byte exactly when that character is ASCII.
pub proof fn lemma_utf8_length(s: Seq<char>)
    ensures
        encode_utf8(s).len() >= s.len(),
        s.len() == 1 ==> (encode_utf8(s).len() == 1 <==> (s[0] as u32) <= 0x7F),
    decreases s.len(),
{
    if s.len() > 0 {
        lemma_utf8_length(s.drop_first());
        if s.len() == 1 {
            assert(s.drop_first() =~= Seq::<char>::empty());
            assert(encode_utf8(s.drop_first()) =~= Seq::<u8>::empty());
        }
    }
}

proof fn lemma_attribute_error_sticks(specs: Seq<AttributeSpec>, name: Seq<char>, n: nat, m: nat)
    requires
        n <= m,
        spec_attribute_prefix(specs, name, n) is Err,
    ensures
        spec_attribute_prefix(specs, name, m) == spec_attribute_prefix(specs, name, n),
    decreases m - n,
{
    if n < m {
        lemma_attribute_error_sticks(specs, name, n, (m - 1) as nat);
    }
}

proof fn lemma_ports_error_sticks(items: Seq<AnsiPortItem>, n: nat, m: nat)
    requires
        n <= m,
        spec_ports_prefix(items, n) is Err,
    ensures
        spec_ports_prefix(items, m) == spec_ports_prefix(items, n),
    decreases m - n,
{
    if n < m {
        lemma_ports_error_sticks(items, n, (m - 1) as nat);
    }
}

proof fn lemma_modules_error_sticks(items: Seq<ModuleDeclaration>, n: nat, m: nat)
    requires
        n <= m,
        spec_modules_prefix(items, n) is Err,
    ensures
        spec_modules_prefix(items, m) == spec_modules_prefix(items, n),
    decreases m - n,
{
    if n < m {
        lemma_modules_error_sticks(items, n, (m - 1) as nat);
    }
}

// ---------------------------------------------------------------------
// The analysis.
// ---------------------------------------------------------------------

/// Takes the literal span of a `StringLiteral`, e.g. `"foo"`, and decodes it
/// to a string by stripping the quotes and replacing escape sequences.
pub fn decode_string_literal(s: &str) -> (r: Result<String, ParseError>)
    ensures
        parse_outcome(r) == spec_decode_string_literal(s@),
{
    let n = s.unicode_len();
    proof {
        lemma_utf8_length(s@);
    }
    // Fewer than two bytes: no character, or a single ASCII one.
    if n == 0 || (n == 1 && (s.get_char(0) as u32) <= 0x7F) {
        return Err(ParseError::StringLiteralTooShort(String::from_str(s)));
    }
    if n >= 2 && s.get_char(0) == '"' && s.get_char(n - 1) == '"' {
        let inner = s.substring_char(1, n - 1);
        match unescape(inner) {
            Some(t) => Ok(t),
            None => Err(ParseError::InvalidEscape(String::from_str(s))),
        }
    } else {
        Err(ParseError::StringLiteralUnquoted(String::from_str(s)))
    }
}

/// Returns the unsigned number or string of a constant expression. It must be
/// a plain decimal number (or string) for this to succeed.
fn get_simple_constant(e: &ConstantExpression) -> (r: Result<SimpleConstant, ParseError>)
    ensures
        parse_outcome(r) == spec_simple_constant(*e),
{
    match e {
        ConstantExpression::UnsignedNumber(None) => Err(ParseError::MissingIntegerText),
        ConstantExpression::UnsignedNumber(Some(t)) => match parse_u64(t.as_str()) {
            Ok(v) => Ok(SimpleConstant::UnsignedDecimal(v)),
            Err(k) => Err(ParseError::InvalidInteger(k)),
        },
        ConstantExpression::StringLiteral(None) => Err(ParseError::MissingStringText),
        ConstantExpression::StringLiteral(Some(t)) => match decode_string_literal(t.as_str()) {
            Ok(s) => Ok(SimpleConstant::String(s)),
            Err(e) => Err(e),
        },
        ConstantExpression::TimeLiteral => Err(ParseError::UnexpectedTimeLiteral),
        ConstantExpression::UnbasedUnsizedLiteral => Err(ParseError::UnexpectedUnbasedUnsizedLiteral),
        ConstantExpression::Other => Err(ParseError::ExpectedUnsignedLiteral),
    }
}

/// The width of a packed dimension `[left:0]`.
fn get_packed_dimension_width(d: &PackedDimension) -> (r: Result<u64, Failure>)
    ensures
        outcome(r) == spec_packed_dimension_width(*d),
{
    match d {
        PackedDimension::Unsized => Err(Failure::Rejected(ParseError::UnsizedDimension)),
        PackedDimension::Range(l, r) => {
            let left = match get_simple_constant(l) {
                Ok(c) => c,
                Err(e) => return Err(Failure::Rejected(e)),
            };
            let right = match get_simple_constant(r) {
                Ok(c) => c,
                Err(e) => return Err(Failure::Rejected(e)),
            };
            match (left, right) {
                (SimpleConstant::UnsignedDecimal(a), SimpleConstant::UnsignedDecimal(b)) => {
                    if b != 0 {
                        Err(Failure::Rejected(ParseError::RangeRightNotZero(b)))
                    } else if a == u64::MAX {
                        Err(Failure::WidthOverflow)
                    } else {
                        Ok(a + 1)
                    }
                },
                _ => Err(Failure::Rejected(ParseError::ExpectedIntegerConstants)),
            }
        },
    }
}

/// Finds the attribute called `name` among `specs`: `None` if absent,
/// `Some(None)` if it has no value, `Some(Some(c))` if its value is `c`.
fn get_attribute(specs: &Vec<AttributeSpec>, name: &str) -> (r: Result<Option<Option<SimpleConstant>>, ParseError>)
    ensures
        match r {
            Ok(a) => spec_get_attribute(specs@, name@) == Ok::<_, SpecParseError>(attribute_view(a)),
            Err(e) => spec_get_attribute(specs@, name@) == Err::<Option<Option<SpecSimpleConstant>>, _>(e@),
        },
{
    let mut result: Option<Option<SimpleConstant>> = None;
    let n = specs.len();
    let mut i: usize = 0;
    while i < n
        invariant
            n == specs@.len(),
            i <= n,
            spec_attribute_prefix(specs@, name@, i as nat) == Ok::<_, SpecParseError>(attribute_view(result)),
        decreases n - i,
    {
        let spec = &specs[i];
        match &spec.name {
            None => {
                proof { lemma_attribute_error_sticks(specs@, name@, (i + 1) as nat, n as nat); }
                return Err(ParseError::MissingText);
            },
            Some(id) => {
                if str_eq(id.as_str(), name) {
                    if result.is_some() {
                        proof { lemma_attribute_error_sticks(specs@, name@, (i + 1) as nat, n as nat); }
                        return Err(ParseError::DuplicateAttribute(String::from_str(name)));
                    }
                    let value = match &spec.value {
                        None => None,
                        Some(c) => match get_simple_constant(c) {
                            Ok(v) => Some(v),
                            Err(e) => {
                                proof { lemma_attribute_error_sticks(specs@, name@, (i + 1) as nat, n as nat); }
                                return Err(e);
                            },
                        },
                    };
                    result = Some(value);
                }
            },
        }
        i = i + 1;
    }
    Ok(result)
}

/// The direction of a variable port.
fn get_direction(v: &VariablePortDeclaration) -> (r: Result<Direction, ParseError>)
    ensures
        match r {
            Ok(d) => spec_direction(*v) == Ok::<Direction, SpecParseError>(d),
            Err(e) => spec_direction(*v) == Err::<Direction, SpecParseError>(e@),
        },
{
    match &v.header {
        None => Err(ParseError::MissingPortHeader),
        Some(h) => match h.direction {
            None => Err(ParseError::MissingPortDirection),
            Some(PortDirection::Input) => Ok(Direction::Input),
            Some(PortDirection::Output) => Ok(Direction::Output),
            Some(PortDirection::Inout) => Err(ParseError::InoutPort),
            Some(PortDirection::Ref) => Err(ParseError::RefPort),
        },
    }
}

/// Inner and outer widths from the packed dimensions.
fn get_dimension_sizes(dims: &Vec<PackedDimension>) -> (r: Result<(u64, Option<u64>), Failure>)
    ensures
        match r {
            Ok(sizes) => spec_dimension_sizes(dims@) == Ok::<_, SpecParseError>(sizes),
            Err(f) => spec_dimension_sizes(dims@) == Err::<(u64, Option<u64>), _>(f@),
        },
{
    if dims.len() == 0 {
        Ok((1, None))
    } else if dims.len() == 1 {
        let w = get_packed_dimension_width(&dims[0])?;
        Ok((w, None))
    } else if dims.len() == 2 {
        let inner = get_packed_dimension_width(&dims[1])?;
        let outer = get_packed_dimension_width(&dims[0])?;
        Ok((inner, Some(outer)))
    } else {
        Err(Failure::Rejected(ParseError::TooManyDimensions))
    }
}

/// The widths of a port of type `var bit` or `var logic`.
fn get_port_sizes(t: &VarDataType) -> (r: Result<(u64, Option<u64>), Failure>)
    ensures
        match r {
            Ok(sizes) => spec_port_sizes(*t) == Ok::<_, SpecParseError>(sizes),
            Err(f) => spec_port_sizes(*t) == Err::<(u64, Option<u64>), _>(f@),
        },
{
    match t {
        VarDataType::DataType => Err(Failure::Rejected(ParseError::VarKeywordMissing)),
        VarDataType::Var(DataTypeOrImplicit::Implicit) => Err(Failure::Rejected(ParseError::ImplicitDataType)),
        VarDataType::Var(DataTypeOrImplicit::DataType(DataType::Other)) => Err(Failure::Rejected(ParseError::NotVector)),
        VarDataType::Var(DataTypeOrImplicit::DataType(DataType::Vector { vector_type, signed, dimensions })) => {
            if *vector_type == IntegerVectorType::Reg {
                Err(Failure::Rejected(ParseError::RegType))
            } else if *signed {
                Err(Failure::Rejected(ParseError::SignedPort))
            } else {
                get_dimension_sizes(dimensions)
            }
        },
    }
}

/// The port of one item of an ANSI port list.
fn get_port(item: &AnsiPortItem) -> (r: Result<Port, Failure>)
    ensures
        outcome(r) == spec_port(*item),
{
    let trigger = match get_attribute(&item.attributes, "trigger") {
        Err(e) => return Err(Failure::Rejected(e)),
        Ok(None) => false,
        Ok(Some(None)) => true,
        Ok(Some(Some(_))) => return Err(Failure::Rejected(ParseError::PortTriggerHasValue)),
    };
    match &item.declaration {
        AnsiPortDeclaration::Variable(v) => {
            let name = match &v.name {
                None => return Err(Failure::Rejected(ParseError::MissingPortNameText)),
                Some(n) => n.clone(),
            };
            let direction = match get_direction(v) {
                Ok(d) => d,
                Err(e) => return Err(Failure::Rejected(e)),
            };
            if v.has_unpacked_dimensions {
                return Err(Failure::Rejected(ParseError::UnpackedDimensions));
            }
            let header = match &v.header {
                None => return Err(Failure::Rejected(ParseError::MissingPortType)),
                Some(h) => h,
            };
            let (size_inner, size_outer) = get_port_sizes(&header.data_type)?;
            Ok(Port { name, direction, size_inner, size_outer, trigger })
        },
        _ => Err(Failure::Rejected(ParseError::PortNotVariable)),
    }
}

/// The ports of a sequence of port items, in declaration order.
fn get_ports(items: &Vec<AnsiPortItem>) -> (r: Result<Vec<Port>, Failure>)
    ensures
        match r {
            Ok(ports) => spec_ports_prefix(items@, items@.len()) == Ok::<_, SpecParseError>(ports_view(ports@)),
            Err(f) => spec_ports_prefix(items@, items@.len()) == Err::<Seq<SpecPort>, _>(f@),
        },
{
    let mut ports: Vec<Port> = Vec::new();
    let n = items.len();
    let mut i: usize = 0;
    assert(ports_view(ports@) =~= Seq::<SpecPort>::empty());
    while i < n
        invariant
            n == items@.len(),
            i <= n,
            spec_ports_prefix(items@, i as nat) == Ok::<_, SpecParseError>(ports_view(ports@)),
        decreases n - i,
    {
        match get_port(&items[i]) {
            Ok(p) => {
                let ghost before = ports@;
                ports.push(p);
                assert(ports_view(ports@) =~= ports_view(before).push(p@));
            },
            Err(f) => {
                proof { lemma_ports_error_sticks(items@, (i + 1) as nat, n as nat); }
                return Err(f);
            },
        }
        i = i + 1;
    }
    Ok(ports)
}

/// The ports of a port list, in declaration order.
fn get_port_list(list: &PortList) -> (r: Result<Vec<Port>, Failure>)
    ensures
        match r {
            Ok(ports) => spec_port_list(*list) == Ok::<_, SpecParseError>(ports_view(ports@)),
            Err(f) => spec_port_list(*list) == Err::<Seq<SpecPort>, _>(f@),
        },
{
    match list {
        PortList::Ports(items) => get_ports(items),
        _ => {
            let empty: Vec<Port> = Vec::new();
            assert(ports_view(empty@) =~= Seq::<SpecPort>::empty());
            Ok(empty)
        },
    }
}

/// The analysis of one ANSI module.
fn get_module(m: &AnsiModule) -> (r: Result<ParseResult, Failure>)
    ensures
        outcome(r) == spec_module(*m),
{
    let module_name = match &m.name {
        None => return Err(Failure::Rejected(ParseError::MissingText)),
        Some(n) => n.clone(),
    };
    let trigger = match get_attribute(&m.attributes, "trigger") {
        Err(e) => return Err(Failure::Rejected(e)),
        Ok(None) => None,
        Ok(Some(Some(SimpleConstant::String(s)))) => Some(s),
        Ok(_) => return Err(Failure::Rejected(ParseError::ModuleTriggerNotString)),
    };
    let ports = get_port_list(&m.ports)?;
    Ok(ParseResult { module_name, trigger, ports })
}

/// Analyses the module declarations of a source, and gives `None` where a
/// packed dimension `[N:0]` with `N == u64::MAX` is met: its width does not
/// fit in a `u64`.
pub fn checked_analyze_defs(items: &Vec<ModuleDeclaration>) -> (r: Option<Result<ParseResult, ParseError>>)
    ensures
        r is None <==> spec_analyze(items@) == Err::<SpecParseResult, _>(SpecParseError::WidthOverflow),
        r matches Some(res) ==> parse_outcome(res) == spec_analyze(items@),
{
    let mut result: Option<ParseResult> = None;
    let n = items.len();
    let mut i: usize = 0;
    while i < n
        invariant
            n == items@.len(),
            i <= n,
            spec_modules_prefix(items@, i as nat) == Ok::<_, SpecParseError>(match result {
                Some(r) => Some(r@),
                None => None,
            }),
        decreases n - i,
    {
        match &items[i] {
            ModuleDeclaration::NonAnsi => {
                proof { lemma_modules_error_sticks(items@, (i + 1) as nat, n as nat); }
                return Some(Err(ParseError::NonAnsiModule));
            },
            ModuleDeclaration::Ansi(m) => {
                if result.is_some() {
                    proof { lemma_modules_error_sticks(items@, (i + 1) as nat, n as nat); }
                    return Some(Err(ParseError::MultipleModules));
                }
                match get_module(m) {
                    Ok(r) => {
                        result = Some(r);
                    },
                    Err(f) => {
                        proof { lemma_modules_error_sticks(items@, (i + 1) as nat, n as nat); }
                        return match f {
                            Failure::Rejected(e) => Some(Err(e)),
                            Failure::WidthOverflow => None,
                        };
                    },
                }
            },
        }
        i = i + 1;
    }
    match result {
        Some(r) => Some(Ok(r)),
        None => Some(Err(ParseError::NoModule)),
    }
}

/// Finds the single module of a source and its ports: the module must be
/// ANSI-style; a `trigger` attribute on it must have a string value; every
/// port must be an `input` or `output` `var bit`/`var logic` port, unsigned,
/// with at most two packed dimensions `[N:0]`, and a `trigger` attribute on a
/// port must have no value.
pub fn analyze_defs(items: &Vec<ModuleDeclaration>) -> (r: Result<ParseResult, ParseError>)
    requires
        spec_analyze(items@) != Err::<SpecParseResult, _>(SpecParseError::WidthOverflow),
    ensures
        parse_outcome(r) == spec_analyze(items@),
{
    match checked_analyze_defs(items) {
        Some(r) => r,
        None => Err(ParseError::NoModule),
    }
}


// ---------------------------------------------------------------------
// Validation.
// ---------------------------------------------------------------------

/// Why a parse result cannot be bound to Rust.
#[derive(Debug, PartialEq, Eq)]
pub enum ValidateError {
    /// "Port '{name}' inner size must be at least 1"
    InnerSizeTooSmall(String),
    /// "Port '{name}' inner size must be at most 128. To pass more data use a 2D packed array."
    InnerSizeTooLarge(String),
    /// "Port names must be unique"
    DuplicateNames,
    /// "Port names cannot contain '___'"
    NameContainsSeparator,
    /// "exactly one trigger attribute must be present (either on a port or on the module)"
    TriggerCount,
}

pub enum SpecValidateError {
    InnerSizeTooSmall(Seq<char>),
    InnerSizeTooLarge(Seq<char>),
    DuplicateNames,
    NameContainsSeparator,
    TriggerCount,
}

impl View for ValidateError {
    type V = SpecValidateError;

    open spec fn view(&self) -> SpecValidateError {
        match self {
            ValidateError::InnerSizeTooSmall(n) => SpecValidateError::InnerSizeTooSmall(n@),
            ValidateError::InnerSizeTooLarge(n) => SpecValidateError::InnerSizeTooLarge(n@),
            ValidateError::DuplicateNames => SpecValidateError::DuplicateNames,
            ValidateError::NameContainsSeparator => SpecValidateError::NameContainsSeparator,
            ValidateError::TriggerCount => SpecValidateError::TriggerCount,
        }
    }
}

/// The inner width of the port is between 1 and 128.
pub open spec fn inner_size_ok(p: SpecPort) -> bool {
    1 <= p.size_inner <= 128
}

/// `i` is the first port whose inner width is out of range.
pub open spec fn is_first_bad_size(ports: Seq<SpecPort>, i: int) -> bool {
    &&& 0 <= i < ports.len()
    &&& !inner_size_ok(ports[i])
    &&& forall|j: int| 0 <= j < i ==> inner_size_ok(#[trigger] ports[j])
}

/// No two ports have the same name.
pub open spec fn names_distinct(ports: Seq<SpecPort>) -> bool {
    forall|i: int, j: int| 0 <= i < j < ports.len() ==> ports[i].name != ports[j].name
}

/// The separator that the generated code puts between a port name and an
/// element index.
pub open spec fn separator() -> Seq<char> {
    "___"@
}

/// Some port name contains the separator.
pub open spec fn some_name_has_separator(ports: Seq<SpecPort>) -> bool {
    exists|i: int| 0 <= i < ports.len() && contains_text(#[trigger] ports[i].name, separator())
}

/// The number of ports that carry a trigger attribute.
pub open spec fn port_trigger_count(ports: Seq<SpecPort>) -> nat
    decreases ports.len(),
{
    if ports.len() == 0 {
        0
    } else {
        port_trigger_count(ports.drop_last()) + if ports.last().trigger { 1nat } else { 0nat }
    }
}

/// The number of trigger attributes, on the module and on the ports.
pub open spec fn trigger_count(pr: SpecParseResult) -> nat {
    (if pr.trigger is Some { 1nat } else { 0nat }) + port_trigger_count(pr.ports)
}

/// What `validate` gives: the first port whose inner width is not in
/// `[1, 128]` is reported; otherwise the names must be distinct, contain no
/// `___`, and exactly one trigger attribute must be present.
pub open spec fn spec_validate(pr: SpecParseResult) -> Result<(), SpecValidateError> {
    if exists|i: int| is_first_bad_size(pr.ports, i) {
        let i = choose|i: int| is_first_bad_size(pr.ports, i);
        if pr.ports[i].size_inner < 1 {
            Err(SpecValidateError::InnerSizeTooSmall(pr.ports[i].name))
        } else {
            Err(SpecValidateError::InnerSizeTooLarge(pr.ports[i].name))
        }
    } else if !names_distinct(pr.ports) {
        Err(SpecValidateError::DuplicateNames)
    } else if some_name_has_separator(pr.ports) {
        Err(SpecValidateError::NameContainsSeparator)
    } else if trigger_count(pr) != 1 {
        Err(SpecValidateError::TriggerCount)
    } else {
        Ok(())
    }
}

/// A parse result is valid when `spec_validate` accepts it.
pub open spec fn is_valid(pr: SpecParseResult) -> bool {
    spec_validate(pr) is Ok
}

pub open spec fn validate_outcome(r: Result<(), ValidateError>) -> Result<(), SpecValidateError> {
    match r {
        Ok(()) => Ok(()),
        Err(e) => Err(e@),
    }
}

/// When all inner widths are in range, there is no first bad one.
proof fn lemma_no_bad_size(ports: Seq<SpecPort>)
    requires
        forall|j: int| 0 <= j < ports.len() ==> inner_size_ok(#[trigger] ports[j]),
    ensures
        !exists|i: int| is_first_bad_size(ports, i),
{
}

/// The first bad width is unique.
proof fn lemma_first_bad_size_unique(ports: Seq<SpecPort>, i: int, k: int)
    requires
        is_first_bad_size(ports, i),
        is_first_bad_size(ports, k),
    ensures
        i == k,
{
    if k < i {
        assert(inner_size_ok(ports[k]));
    } else if i < k {
        assert(inner_size_ok(ports[i]));
    }
}

proof fn lemma_port_trigger_count_push(ports: Seq<SpecPort>, p: SpecPort)
    ensures
        port_trigger_count(ports.push(p)) == port_trigger_count(ports) + if p.trigger { 1nat } else { 0nat },
{
    assert(ports.push(p).drop_last() =~= ports);
}

/// Checks that all inner dimensions are in [1, 128], that port names are
/// unique and do not contain `___`, and that there is exactly one trigger.
pub fn validate(parse_result: &ParseResult) -> (r: Result<(), ValidateError>)
    ensures
        validate_outcome(r) == spec_validate(parse_result@),
{
    let ghost sp = parse_result@.ports;
    let n = parse_result.ports.len();
    assert(sp.len() == n);
    let mut i: usize = 0;
    while i < n
        invariant
            n == parse_result.ports@.len(),
            sp == ports_view(parse_result.ports@),
            sp == parse_result@.ports,
            i <= n,
            forall|j: int| 0 <= j < i ==> inner_size_ok(#[trigger] sp[j]),
        decreases n - i,
    {
        let port = &parse_result.ports[i];
        assert(sp[i as int] == port@);
        if port.size_inner < 1 || port.size_inner > 128 {
            assert(is_first_bad_size(sp, i as int));
            proof {
                let k = choose|k: int| is_first_bad_size(sp, k);
                lemma_first_bad_size_unique(sp, i as int, k);
            }
            if port.size_inner < 1 {
                return Err(ValidateError::InnerSizeTooSmall(port.name.clone()));
            } else {
                return Err(ValidateError::InnerSizeTooLarge(port.name.clone()));
            }
        }
        i = i + 1;
    }
    proof { lemma_no_bad_size(sp); }

    // Names must be unique.
    let mut i: usize = 0;
    while i < n
        invariant
            n == parse_result.ports@.len(),
            sp == ports_view(parse_result.ports@),
            sp == parse_result@.ports,
            !exists|k: int| is_first_bad_size(sp, k),
            i <= n,
            forall|a: int, b: int| 0 <= a < i && a < b < n ==> sp[a].name != sp[b].name,
        decreases n - i,
    {
        let mut j: usize = i + 1;
        while j < n
            invariant
                n == parse_result.ports@.len(),
                sp == ports_view(parse_result.ports@),
                sp == parse_result@.ports,
                !exists|k: int| is_first_bad_size(sp, k),
                i < n,
                i + 1 <= j <= n,
                forall|a: int, b: int| 0 <= a < i && a < b < n ==> sp[a].name != sp[b].name,
                forall|b: int| i < b < j ==> sp[i as int].name != sp[b].name,
            decreases n - j,
        {
            if parse_result.ports[i].name == parse_result.ports[j].name {
                assert(sp[i as int].name == sp[j as int].name);
                return Err(ValidateError::DuplicateNames);
            }
            j = j + 1;
        }
        i = i + 1;
    }
    assert(names_distinct(sp));

    // Port names cannot contain the separator.
    let mut i: usize = 0;
    while i < n
        invariant
            n == parse_result.ports@.len(),
            sp == ports_view(parse_result.ports@),
            sp == parse_result@.ports,
            !exists|k: int| is_first_bad_size(sp, k),
            names_distinct(sp),
            i <= n,
            forall|j: int| 0 <= j < i ==> !contains_text(#[trigger] sp[j].name, separator()),
        decreases n - i,
    {
        if str_contains(parse_result.ports[i].name.as_str(), "___") {
            assert(contains_text(sp[i as int].name, separator()));
            return Err(ValidateError::NameContainsSeparator);
        }
        i = i + 1;
    }

    // Exactly one trigger; counting stops at two.
    let mut count: u64 = if parse_result.trigger.is_some() { 1 } else { 0 };
    let mut i: usize = 0;
    assert(sp.take(0) =~= Seq::<SpecPort>::empty());
    while i < n
        invariant
            n == parse_result.ports@.len(),
            sp == ports_view(parse_result.ports@),
            sp == parse_result@.ports,
            !exists|k: int| is_first_bad_size(sp, k),
            i <= n,
            count <= 2,
            count == if parse_result@.trigger is Some { 1nat } else { 0nat } + port_trigger_count(sp.take(i as int))
                || (count == 2 && (if parse_result@.trigger is Some { 1nat } else { 0nat }) + port_trigger_count(sp.take(i as int)) >= 2),
        decreases n - i,
    {
        proof {
            assert(sp.take(i + 1) =~= sp.take(i as int).push(sp[i as int]));
            lemma_port_trigger_count_push(sp.take(i as int), sp[i as int]);
        }
        if parse_result.ports[i].trigger && count < 2 {
            count = count + 1;
        }
        i = i + 1;
    }
    assert(sp.take(n as int) =~= sp);
    if count != 1 {
        return Err(ValidateError::TriggerCount);
    }
    Ok(())
}

} // verus!
