use cotim::parser::{
    analyze_defs, checked_analyze_defs, decode_string_literal, Direction, ParseError, ParseResult, Port,
};
use cotim::syntax::{
    AnsiModule, AnsiPortDeclaration, AnsiPortItem, AttributeSpec, ConstantExpression, DataType,
    DataTypeOrImplicit, IntegerVectorType, ModuleDeclaration, PackedDimension, PortDirection, PortList,
    VarDataType, VariablePortDeclaration, VariablePortHeader,
};
use cotim::text::IntErrorKind;

fn num(n: &str) -> ConstantExpression {
    ConstantExpression::UnsignedNumber(Some(n.to_string()))
}

fn range(left: &str) -> PackedDimension {
    PackedDimension::Range(num(left), num("0"))
}

fn trigger_flag() -> AttributeSpec {
    AttributeSpec { name: Some("trigger".to_string()), value: None }
}

fn trigger_text(t: &str) -> AttributeSpec {
    AttributeSpec {
        name: Some("trigger".to_string()),
        value: Some(ConstantExpression::StringLiteral(Some(format!("\"{}\"", t)))),
    }
}

fn var_port(
    direction: PortDirection,
    vector_type: IntegerVectorType,
    dims: Vec<PackedDimension>,
    name: &str,
) -> AnsiPortDeclaration {
    AnsiPortDeclaration::Variable(VariablePortDeclaration {
        header: Some(VariablePortHeader {
            direction: Some(direction),
            data_type: VarDataType::Var(DataTypeOrImplicit::DataType(DataType::Vector {
                vector_type,
                signed: false,
                dimensions: dims,
            })),
        }),
        name: Some(name.to_string()),
        has_unpacked_dimensions: false,
    })
}

fn item(attributes: Vec<AttributeSpec>, declaration: AnsiPortDeclaration) -> AnsiPortItem {
    AnsiPortItem { attributes, declaration }
}

fn input(name: &str, dims: Vec<PackedDimension>) -> AnsiPortItem {
    item(vec![], var_port(PortDirection::Input, IntegerVectorType::Logic, dims, name))
}

fn output(name: &str, dims: Vec<PackedDimension>) -> AnsiPortItem {
    item(vec![], var_port(PortDirection::Output, IntegerVectorType::Logic, dims, name))
}

fn module(name: &str, attributes: Vec<AttributeSpec>, ports: Vec<AnsiPortItem>) -> ModuleDeclaration {
    ModuleDeclaration::Ansi(AnsiModule { name: Some(name.to_string()), attributes, ports: PortList::Ports(ports) })
}

fn port(name: &str, direction: Direction, size_inner: u64, size_outer: Option<u64>, trigger: bool) -> Port {
    Port { name: name.to_string(), direction, size_inner, size_outer, trigger }
}

/// The `mux` module of the README.
fn mux() -> Vec<ModuleDeclaration> {
    vec![module(
        "mux",
        vec![trigger_text("posedge i_clk")],
        vec![
            input("i_clk", vec![]),
            input("i_rst", vec![]),
            input("i_sel", vec![]),
            input("i_a", vec![]),
            input("i_b", vec![]),
            input("i_double", vec![range("120")]),
            input("i_u16_array", vec![range("7"), range("15")]),
            output("o_aorb", vec![]),
            output("o_slice", vec![range("3")]),
            output("o_double_slice", vec![range("64")]),
            output("o_wide", vec![range("1"), range("127")]),
        ],
    )]
}

fn one_port(p: AnsiPortItem) -> Vec<ModuleDeclaration> {
    vec![module("top", vec![], vec![p])]
}

fn analyze_one_port(p: AnsiPortItem) -> Result<ParseResult, ParseError> {
    analyze_defs(&one_port(p))
}

#[test]
fn analyze_mux() {
    let r = analyze_defs(&mux()).unwrap();
    assert_eq!(r.module_name, "mux");
    assert_eq!(r.trigger, Some("posedge i_clk".to_string()));
    assert_eq!(
        r.ports,
        vec![
            port("i_clk", Direction::Input, 1, None, false),
            port("i_rst", Direction::Input, 1, None, false),
            port("i_sel", Direction::Input, 1, None, false),
            port("i_a", Direction::Input, 1, None, false),
            port("i_b", Direction::Input, 1, None, false),
            port("i_double", Direction::Input, 121, None, false),
            port("i_u16_array", Direction::Input, 16, Some(8), false),
            port("o_aorb", Direction::Output, 1, None, false),
            port("o_slice", Direction::Output, 4, None, false),
            port("o_double_slice", Direction::Output, 65, None, false),
            port("o_wide", Direction::Output, 128, Some(2), false),
        ]
    );
}

#[test]
fn analyze_port_trigger() {
    let items = vec![module(
        "top",
        vec![],
        vec![item(vec![trigger_flag()], var_port(PortDirection::Input, IntegerVectorType::Bit, vec![], "clk"))],
    )];
    let r = analyze_defs(&items).unwrap();
    assert_eq!(r.trigger, None);
    assert_eq!(r.ports, vec![port("clk", Direction::Input, 1, None, true)]);
}

#[test]
fn analyze_empty_port_lists() {
    for ports in [PortList::Absent, PortList::Empty] {
        let items = vec![ModuleDeclaration::Ansi(AnsiModule { name: Some("m".to_string()), attributes: vec![], ports })];
        let r = analyze_defs(&items).unwrap();
        assert_eq!(r, ParseResult { module_name: "m".to_string(), trigger: None, ports: vec![] });
    }
}

#[test]
fn analyze_module_errors() {
    assert_eq!(analyze_defs(&vec![]), Err(ParseError::NoModule));
    assert_eq!(analyze_defs(&vec![ModuleDeclaration::NonAnsi]), Err(ParseError::NonAnsiModule));
    let mut two = mux();
    two.extend(mux());
    assert_eq!(analyze_defs(&two), Err(ParseError::MultipleModules));
    let nameless = vec![ModuleDeclaration::Ansi(AnsiModule { name: None, attributes: vec![], ports: PortList::Empty })];
    assert_eq!(analyze_defs(&nameless), Err(ParseError::MissingText));
    let flag = vec![module("top", vec![trigger_flag()], vec![])];
    assert_eq!(analyze_defs(&flag), Err(ParseError::ModuleTriggerNotString));
    let number = vec![module("top", vec![AttributeSpec { name: Some("trigger".to_string()), value: Some(num("3")) }], vec![])];
    assert_eq!(analyze_defs(&number), Err(ParseError::ModuleTriggerNotString));
    let twice = vec![module("top", vec![trigger_text("a"), trigger_text("b")], vec![])];
    assert_eq!(analyze_defs(&twice), Err(ParseError::DuplicateAttribute("trigger".to_string())));
    let unnamed_attr = vec![module("top", vec![AttributeSpec { name: None, value: None }], vec![])];
    assert_eq!(analyze_defs(&unnamed_attr), Err(ParseError::MissingText));
    // Other attributes are ignored.
    let other = vec![module("top", vec![AttributeSpec { name: Some("keep".to_string()), value: Some(num("x")) }], vec![])];
    assert_eq!(analyze_defs(&other).unwrap().trigger, None);
    // A non-ANSI module after the first one is still rejected.
    let mut later = mux();
    later.push(ModuleDeclaration::NonAnsi);
    assert_eq!(analyze_defs(&later), Err(ParseError::NonAnsiModule));
}

#[test]
fn analyze_port_errors() {
    let with_value = item(
        vec![AttributeSpec { name: Some("trigger".to_string()), value: Some(num("1")) }],
        var_port(PortDirection::Input, IntegerVectorType::Logic, vec![], "clk"),
    );
    assert_eq!(analyze_one_port(with_value), Err(ParseError::PortTriggerHasValue));
    assert_eq!(analyze_one_port(item(vec![], AnsiPortDeclaration::Net)), Err(ParseError::PortNotVariable));
    assert_eq!(analyze_one_port(item(vec![], AnsiPortDeclaration::Paren)), Err(ParseError::PortNotVariable));
    assert_eq!(
        analyze_one_port(item(vec![], var_port(PortDirection::Inout, IntegerVectorType::Logic, vec![], "x"))),
        Err(ParseError::InoutPort)
    );
    assert_eq!(
        analyze_one_port(item(vec![], var_port(PortDirection::Ref, IntegerVectorType::Logic, vec![], "x"))),
        Err(ParseError::RefPort)
    );
    assert_eq!(
        analyze_one_port(item(vec![], var_port(PortDirection::Input, IntegerVectorType::Reg, vec![], "x"))),
        Err(ParseError::RegType)
    );
    assert_eq!(
        analyze_one_port(input("x", vec![range("1"), range("1"), range("1")])),
        Err(ParseError::TooManyDimensions)
    );
    assert_eq!(analyze_one_port(input("x", vec![PackedDimension::Unsized])), Err(ParseError::UnsizedDimension));
    assert_eq!(
        analyze_one_port(input("x", vec![PackedDimension::Range(num("3"), num("1"))])),
        Err(ParseError::RangeRightNotZero(1))
    );
    let time = PackedDimension::Range(ConstantExpression::TimeLiteral, num("0"));
    assert_eq!(analyze_one_port(input("x", vec![time])), Err(ParseError::UnexpectedTimeLiteral));
    let unbased = PackedDimension::Range(num("3"), ConstantExpression::UnbasedUnsizedLiteral);
    assert_eq!(analyze_one_port(input("x", vec![unbased])), Err(ParseError::UnexpectedUnbasedUnsizedLiteral));
    let expr = PackedDimension::Range(ConstantExpression::Other, num("0"));
    assert_eq!(analyze_one_port(input("x", vec![expr])), Err(ParseError::ExpectedUnsignedLiteral));
    let text = PackedDimension::Range(ConstantExpression::StringLiteral(Some("\"3\"".to_string())), num("0"));
    assert_eq!(analyze_one_port(input("x", vec![text])), Err(ParseError::ExpectedIntegerConstants));
    let underscore = PackedDimension::Range(num("1_0"), num("0"));
    assert_eq!(
        analyze_one_port(input("x", vec![underscore])),
        Err(ParseError::InvalidInteger(IntErrorKind::InvalidDigit))
    );
    let missing = PackedDimension::Range(ConstantExpression::UnsignedNumber(None), num("0"));
    assert_eq!(analyze_one_port(input("x", vec![missing])), Err(ParseError::MissingIntegerText));
    // The inner dimension is read before the outer one.
    assert_eq!(
        analyze_one_port(input("x", vec![PackedDimension::Unsized, PackedDimension::Range(num("2"), num("5"))])),
        Err(ParseError::RangeRightNotZero(5))
    );

    let decl = |header: Option<VariablePortHeader>, name: Option<&str>, unpacked: bool| {
        item(
            vec![],
            AnsiPortDeclaration::Variable(VariablePortDeclaration {
                header,
                name: name.map(|n| n.to_string()),
                has_unpacked_dimensions: unpacked,
            }),
        )
    };
    let header = |direction: Option<PortDirection>, data_type: VarDataType| Some(VariablePortHeader { direction, data_type });
    let logic = || {
        VarDataType::Var(DataTypeOrImplicit::DataType(DataType::Vector {
            vector_type: IntegerVectorType::Logic,
            signed: false,
            dimensions: vec![],
        }))
    };
    assert_eq!(analyze_one_port(decl(None, Some("x"), false)), Err(ParseError::MissingPortHeader));
    assert_eq!(analyze_one_port(decl(header(None, logic()), Some("x"), false)), Err(ParseError::MissingPortDirection));
    assert_eq!(analyze_one_port(decl(header(Some(PortDirection::Input), logic()), None, false)), Err(ParseError::MissingPortNameText));
    assert_eq!(analyze_one_port(decl(header(Some(PortDirection::Input), logic()), Some("x"), true)), Err(ParseError::UnpackedDimensions));
    assert_eq!(
        analyze_one_port(decl(header(Some(PortDirection::Input), VarDataType::DataType), Some("x"), false)),
        Err(ParseError::VarKeywordMissing)
    );
    assert_eq!(
        analyze_one_port(decl(header(Some(PortDirection::Input), VarDataType::Var(DataTypeOrImplicit::Implicit)), Some("x"), false)),
        Err(ParseError::ImplicitDataType)
    );
    assert_eq!(
        analyze_one_port(decl(
            header(Some(PortDirection::Input), VarDataType::Var(DataTypeOrImplicit::DataType(DataType::Other))),
            Some("x"),
            false
        )),
        Err(ParseError::NotVector)
    );
    let signed = VarDataType::Var(DataTypeOrImplicit::DataType(DataType::Vector {
        vector_type: IntegerVectorType::Bit,
        signed: true,
        dimensions: vec![],
    }));
    assert_eq!(analyze_one_port(decl(header(Some(PortDirection::Output), signed), Some("x"), false)), Err(ParseError::SignedPort));
}

#[test]
fn analyze_width_overflow() {
    let items = one_port(input("x", vec![range("18446744073709551615")]));
    assert_eq!(checked_analyze_defs(&items), None);
    let fits = one_port(input("x", vec![range("18446744073709551614")]));
    assert_eq!(checked_analyze_defs(&fits).unwrap().unwrap().ports[0].size_inner, u64::MAX);
    let too_big = one_port(input("x", vec![range("18446744073709551616")]));
    assert_eq!(
        checked_analyze_defs(&too_big),
        Some(Err(ParseError::InvalidInteger(IntErrorKind::PosOverflow)))
    );
    // An error met before the dimension is reported.
    let mut items = vec![ModuleDeclaration::NonAnsi];
    items.extend(one_port(input("x", vec![range("18446744073709551615")])));
    assert_eq!(checked_analyze_defs(&items), Some(Err(ParseError::NonAnsiModule)));
}

#[test]
fn decode_string_literals() {
    assert_eq!(decode_string_literal("\"posedge clk\""), Ok("posedge clk".to_string()));
    assert_eq!(decode_string_literal("\"\""), Ok(String::new()));
    assert_eq!(decode_string_literal("\"a\\nb\""), Ok("a\nb".to_string()));
    assert_eq!(decode_string_literal(""), Err(ParseError::StringLiteralTooShort(String::new())));
    assert_eq!(decode_string_literal("\""), Err(ParseError::StringLiteralTooShort("\"".to_string())));
    assert_eq!(decode_string_literal("ab"), Err(ParseError::StringLiteralUnquoted("ab".to_string())));
    assert_eq!(decode_string_literal("\"ab"), Err(ParseError::StringLiteralUnquoted("\"ab".to_string())));
    // One character of two bytes is long enough, but not quoted.
    assert_eq!(decode_string_literal("é"), Err(ParseError::StringLiteralUnquoted("é".to_string())));
}

#[test]
fn decode_gives_back_quoted_text() {
    for inner in ["", "x", "posedge clk or negedge rst_n", "\"", "é€𝄞"] {
        assert_eq!(decode_string_literal(&format!("\"{inner}\"")), Ok(inner.to_string()));
    }
}

#[test]
fn decode_replaces_escape_sequences() {
    assert_eq!(decode_string_literal(r#""a\tb""#), Ok("a\tb".to_string()));
    assert_eq!(decode_string_literal(r#""a\"b""#), Ok("a\"b".to_string()));
    assert_eq!(decode_string_literal(r#""a\\b""#), Ok("a\\b".to_string()));
    assert_eq!(decode_string_literal(r#""\101\x42\q""#), Ok("ABq".to_string()));
    assert_eq!(decode_string_literal(r#""\7\v\f\a""#), Ok("\x07\x0B\x0C\x07".to_string()));
    assert_eq!(decode_string_literal("\"a\\\nb\""), Ok("ab".to_string()));
    // At most three octal and two hexadecimal digits belong to an escape.
    assert_eq!(decode_string_literal(r#""\1011\x414""#), Ok("A1A4".to_string()));
    assert_eq!(decode_string_literal(r#""\377""#), Ok("\u{ff}".to_string()));
}

#[test]
fn decode_rejects_malformed_escapes() {
    for s in [r#""a\""#, r#""\x""#, r#""\xg""#, r#""\400""#] {
        assert_eq!(decode_string_literal(s), Err(ParseError::InvalidEscape(s.to_string())));
    }
}
