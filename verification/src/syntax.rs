//! The part of a SystemVerilog syntax tree that the port analysis reads,
//! held as plain values: the module declarations of a source file in the
//! order in which they occur, and of each ANSI module its name, its
//! attributes and its port declarations. Texts are the trimmed source spans
//! of the corresponding nodes; `None` stands for a span that could not be
//! located in the source.

use vstd::prelude::*;

verus! {

/// A constant expression in an attribute value or a packed dimension bound.
#[derive(Debug)]
pub enum ConstantExpression {
    /// An unsigned decimal number literal, with its source text.
    UnsignedNumber(Option<String>),
    /// A string literal, with its source text including the quotes.
    StringLiteral(Option<String>),
    /// A time literal such as `10ns`.
    TimeLiteral,
    /// An unbased unsized literal such as `'1`.
    UnbasedUnsizedLiteral,
    /// Any other expression: an operation, an identifier, a based or real number, ...
    Other,
}

/// One `name` or `name = value` entry of an attribute instance `(* ... *)`.
#[derive(Debug)]
pub struct AttributeSpec {
    pub name: Option<String>,
    pub value: Option<ConstantExpression>,
}

/// A packed dimension of a vector type.
#[derive(Debug)]
pub enum PackedDimension {
    /// `[left:right]`
    Range(ConstantExpression, ConstantExpression),
    /// `[]`
    Unsized,
}

/// The direction keyword of a port.
#[derive(Debug, Clone, Copy, PartialEq, Eq, Structural)]
pub enum PortDirection {
    Input,
    Output,
    Inout,
    Ref,
}

/// The keyword of an integer vector type.
#[derive(Debug, Clone, Copy, PartialEq, Eq, Structural)]
pub enum IntegerVectorType {
    Bit,
    Logic,
    Reg,
}

/// The data type that follows `var` in a port declaration.
#[derive(Debug)]
pub enum DataType {
    /// `bit`, `logic` or `reg`, optionally `signed`/`unsigned`, and its packed
    /// dimensions from the outermost to the innermost.
    Vector { vector_type: IntegerVectorType, signed: bool, dimensions: Vec<PackedDimension> },
    /// Any other data type (integer atoms, structs, enums, type names, ...).
    Other,
}

/// What follows `var` in a port declaration.
#[derive(Debug)]
pub enum DataTypeOrImplicit {
    DataType(DataType),
    /// Only a signing and/or packed dimensions, with no type keyword.
    Implicit,
}

/// The data type of a variable port.
#[derive(Debug)]
pub enum VarDataType {
    /// A data type written without the `var` keyword.
    DataType,
    /// `var` followed by a data type.
    Var(DataTypeOrImplicit),
}

/// The header of a variable port declaration: direction and data type.
#[derive(Debug)]
pub struct VariablePortHeader {
    pub direction: Option<PortDirection>,
    pub data_type: VarDataType,
}

/// A variable port declaration such as `input var logic [3:0] i_data`.
#[derive(Debug)]
pub struct VariablePortDeclaration {
    pub header: Option<VariablePortHeader>,
    /// The port identifier.
    pub name: Option<String>,
    /// The declaration has unpacked dimensions after the identifier.
    pub has_unpacked_dimensions: bool,
}

/// A port declaration in an ANSI port list.
#[derive(Debug)]
pub enum AnsiPortDeclaration {
    Variable(VariablePortDeclaration),
    /// A net port declaration.
    Net,
    /// An explicit port `.name(expression)`.
    Paren,
}

/// A port declaration with the attribute specs written before it.
#[derive(Debug)]
pub struct AnsiPortItem {
    pub attributes: Vec<AttributeSpec>,
    pub declaration: AnsiPortDeclaration,
}

/// The port list of an ANSI module header.
#[derive(Debug)]
pub enum PortList {
    /// `module foo;`
    Absent,
    /// `module foo();`
    Empty,
    /// `module foo(...);` with at least one port.
    Ports(Vec<AnsiPortItem>),
}

/// An ANSI-style module declaration.
#[derive(Debug)]
pub struct AnsiModule {
    pub name: Option<String>,
    /// The attribute specs written before `module`.
    pub attributes: Vec<AttributeSpec>,
    pub ports: PortList,
}

/// A module declaration found in the source.
#[derive(Debug)]
pub enum ModuleDeclaration {
    /// A non-ANSI module declaration (port names in the header, declarations in the body).
    NonAnsi,
    Ansi(AnsiModule),
}

} // verus!
