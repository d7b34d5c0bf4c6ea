use cotim::generator::{generate, generate_rs, generate_sv, GenerateError};
use cotim::parser::{validate, Direction, ParseResult, Port, ValidateError};
use cotim::{build_output, BuildError};

fn port(name: &str, direction: Direction, size_inner: u64, size_outer: Option<u64>, trigger: bool) -> Port {
    Port { name: name.to_string(), direction, size_inner, size_outer, trigger }
}

fn top(trigger: Option<&str>, ports: Vec<Port>) -> ParseResult {
    ParseResult { module_name: "top".to_string(), trigger: trigger.map(|t| t.to_string()), ports }
}

/// The module of the end-to-end Verilator test.
fn invert() -> ParseResult {
    top(
        None,
        vec![
            port("clk", Direction::Input, 1, None, true),
            port("in_1d", Direction::Input, 4, None, false),
            port("in_2d", Direction::Input, 2, Some(4), false),
            port("out_1d", Direction::Output, 4, None, false),
            port("out_2d", Direction::Output, 2, Some(4), false),
        ],
    )
}

// The text that the generator is expected to write, spelled out with `format!`.

/// The SystemVerilog type of a tick argument of `width` bits.
fn bits(width: u64) -> String {
    format!("bit[{}:0]", width - 1)
}

fn expected_sv(pr: &ParseResult, trigger: &str) -> String {
    let mut decl = vec!["input chandle ___instance".to_string()];
    let mut call = vec!["___instance___".to_string()];
    for p in &pr.ports {
        let dir = match p.direction {
            Direction::Input => "input",
            Direction::Output => "output",
        };
        match p.size_outer {
            Some(o) => {
                for i in 0..o {
                    decl.push(format!("{dir} {} {}___{i}", bits(p.size_inner), p.name));
                    call.push(format!("{}[{i}]", p.name));
                }
            }
            None => {
                decl.push(format!("{dir} {} {}", bits(p.size_inner), p.name));
                call.push(p.name.clone());
            }
        }
    }
    let prefix = &pr.module_name;
    let decl = decl.join(", ");
    let call = call.join(", ");
    format!("\n    import \"DPI-C\" function chandle {prefix}_new(input string module_path, input string plusarg);\n    import \"DPI-C\" function void {prefix}_free(input chandle ___instance);\n    import \"DPI-C\" function byte unsigned {prefix}_tick({decl});\n\n    chandle ___instance___ = null;\n\n    initial begin\n        string ___plusarg___;\n        void'($value$plusargs(\"{prefix}=%s\", ___plusarg___));\n        ___instance___ = {prefix}_new($sformatf(\"%m\"), ___plusarg___);\n        if (___instance___ == null) begin\n            $fatal(0, \"Failed to create {prefix} instance.\");\n        end\n    end\n\n    final begin\n        if (___instance___ !== null) begin\n            {prefix}_free(___instance___);\n            ___instance___ = null;\n        end\n    end\n\n    always @({trigger}) begin\n        if ({prefix}_tick({call}) != 0) begin\n            $fatal(0, \"Failed to tick {prefix} instance.\");\n        end\n    end\n    ")
}

#[test]
fn sv_for_port_trigger() {
    let pr = invert();
    assert_eq!(generate_sv(&pr).unwrap(), expected_sv(&pr, "posedge clk"));
    let sv = generate_sv(&pr).unwrap();
    assert!(sv.contains("import \"DPI-C\" function byte unsigned top_tick(input chandle ___instance, input bit[0:0] clk, input bit[3:0] in_1d, input bit[1:0] in_2d___0, input bit[1:0] in_2d___1, input bit[1:0] in_2d___2, input bit[1:0] in_2d___3, output bit[3:0] out_1d, output bit[1:0] out_2d___0, output bit[1:0] out_2d___1, output bit[1:0] out_2d___2, output bit[1:0] out_2d___3);"));
    assert!(sv.contains("if (top_tick(___instance___, clk, in_1d, in_2d[0], in_2d[1], in_2d[2], in_2d[3], out_1d, out_2d[0], out_2d[1], out_2d[2], out_2d[3]) != 0) begin"));
    assert!(sv.contains("always @(posedge clk) begin"));
}

#[test]
fn sv_for_module_trigger() {
    let pr = top(Some("posedge a or negedge b"), vec![port("a", Direction::Input, 1, None, true)]);
    assert_eq!(generate_sv(&pr).unwrap(), expected_sv(&pr, "posedge a or negedge b"));
}

#[test]
fn sv_without_trigger() {
    let pr = top(None, vec![port("a", Direction::Input, 1, None, false)]);
    assert!(matches!(generate_sv(&pr), Err(GenerateError::NoTrigger)));
    assert!(matches!(generate(&pr), Err(GenerateError::NoTrigger)));
}

#[test]
fn sv_first_trigger_port_wins() {
    let pr = top(None, vec![port("a", Direction::Input, 1, None, true), port("b", Direction::Input, 1, None, true)]);
    assert!(generate_sv(&pr).unwrap().contains("always @(posedge a) begin"));
}

#[test]
fn rs_fields_and_arguments() {
    let rs = generate_rs(&invert());
    assert!(rs.contains("pub struct Inputs<'a> {\npub clk: bool,pub in_1d: &'a BitSlice<u32>,pub in_2d: [&'a BitSlice<u32>; 4],\npub ___lifetime: PhantomData<&'a ()>,\n}"));
    assert!(rs.contains("pub struct Outputs<'a> {\npub out_1d: &'a mut BitSlice<u32>,pub out_2d: [&'a mut BitSlice<u32>; 4],\npub ___lifetime: PhantomData<&'a ()>,\n}"));
    assert!(rs.contains("extern \"C\" fn top_tick(instance: *const Mutex<Instance>, clk: *const u32, in_1d: *const u32, in_2d___0: *const u32, in_2d___1: *const u32, in_2d___2: *const u32, in_2d___3: *const u32, out_1d: *mut u32, out_2d___0: *mut u32, out_2d___1: *mut u32, out_2d___2: *mut u32, out_2d___3: *mut u32) -> ReturnCode {"));
    assert!(rs.contains("let inputs = Inputs {\n            clk: (*clk & 1) != 0,in_1d: &*bitslice_from_raw_parts(in_1d.try_into().unwrap(), 4),in_2d: [&*bitslice_from_raw_parts(in_2d___0.try_into().unwrap(), 2),&*bitslice_from_raw_parts(in_2d___1.try_into().unwrap(), 2),&*bitslice_from_raw_parts(in_2d___2.try_into().unwrap(), 2),&*bitslice_from_raw_parts(in_2d___3.try_into().unwrap(), 2)],\n            ___lifetime: PhantomData,\n        };"));
    assert!(rs.contains("let mut outputs = Outputs {\n            out_1d: &mut *bitslice_from_raw_parts_mut(out_1d.try_into().unwrap(), 4),out_2d: [&mut *bitslice_from_raw_parts_mut(out_2d___0.try_into().unwrap(), 2),&mut *bitslice_from_raw_parts_mut(out_2d___1.try_into().unwrap(), 2),&mut *bitslice_from_raw_parts_mut(out_2d___2.try_into().unwrap(), 2),&mut *bitslice_from_raw_parts_mut(out_2d___3.try_into().unwrap(), 2)],\n            ___lifetime: PhantomData,\n        };"));
    assert!(rs.starts_with("\nuse core::ffi::{c_char, CStr};\n"));
    assert!(rs.contains("extern \"C\" fn top_new(module_path: *const c_char, plusarg: *const c_char) -> *const Mutex<Instance> {"));
    assert!(rs.contains("match Instance::new(&module_path, &plusarg) {"));
    assert!(rs.contains("eprintln!(\"Error in top_new: {e:?}\");"));
}

#[test]
fn rs_single_bit_outputs() {
    let pr = top(None, vec![port("clk", Direction::Input, 1, None, true), port("q", Direction::Output, 1, Some(2), false)]);
    let rs = generate_rs(&pr);
    assert!(rs.contains("pub struct Outputs<'a> {\npub q: [&'a mut bool; 2],\n"));
    assert!(rs.contains("clk: *const u32, q___0: *mut u32, q___1: *mut u32) -> ReturnCode {"));
    assert!(rs.contains("q: [&mut *(q___0 as *mut bool),&mut *(q___1 as *mut bool)],"));
    assert!(generate_sv(&pr).unwrap().contains("top_tick(input chandle ___instance, input bit[0:0] clk, output bit[0:0] q___0, output bit[0:0] q___1);"));
    assert!(generate(&pr).is_ok());
}

#[test]
fn generate_pretty_prints_rust() {
    let out = generate(&invert()).unwrap();
    assert_eq!(out.sv, expected_sv(&invert(), "posedge clk"));
    assert_ne!(out.rs, generate_rs(&invert()));
    assert!(out.rs.contains("pub struct Inputs<'a> {\n    pub clk: bool,\n"));
    assert!(out.rs.contains("extern \"C\" fn top_free(instance: *const Mutex<Instance>) {"));
}

#[test]
fn generate_for_the_verilator_module() {
    let out = generate(&invert()).unwrap();
    assert!(out.sv.contains("always @(posedge clk) begin"));
    assert!(out.rs.contains("fn top_new("));
    assert!(out.rs.contains("fn top_tick("));
    assert!(out.rs.contains("fn top_free("));
}

#[test]
fn generate_rejects_invalid_rust() {
    // A port name that is not a Rust identifier gives code that does not parse.
    let pr = top(None, vec![port("a-b", Direction::Input, 1, None, true)]);
    assert!(generate_sv(&pr).is_ok());
    assert!(matches!(generate(&pr), Err(GenerateError::InvalidRust(_))));
}

#[test]
fn generate_refuses_names_that_are_not_plain() {
    // This module name still gives code that parses, but not as the template's items.
    let pr = ParseResult {
        module_name: "x(); extern fn y".to_string(),
        trigger: None,
        ports: vec![port("clk", Direction::Input, 1, None, true)],
    };
    assert!(generate_rs(&pr).contains("extern \"C\" fn x(); extern fn y_new("));
    assert!(generate_sv(&pr).is_ok());
    assert!(matches!(generate(&pr), Err(GenerateError::UnprintableRust)));
    assert!(matches!(build_output(&pr), Err(BuildError::Generate(GenerateError::UnprintableRust))));
}

#[test]
fn validate_accepts_and_rejects() {
    assert_eq!(validate(&invert()), Ok(()));
    let small = top(None, vec![port("a", Direction::Input, 0, None, true), port("b", Direction::Input, 200, None, false)]);
    assert_eq!(validate(&small), Err(ValidateError::InnerSizeTooSmall("a".to_string())));
    let large = top(None, vec![port("a", Direction::Input, 129, None, true), port("b", Direction::Input, 0, None, false)]);
    assert_eq!(validate(&large), Err(ValidateError::InnerSizeTooLarge("a".to_string())));
    let edge = top(None, vec![port("a", Direction::Input, 128, Some(3), true)]);
    assert_eq!(validate(&edge), Ok(()));
    let duplicate = top(None, vec![port("a", Direction::Input, 1, None, true), port("a", Direction::Output, 1, None, false)]);
    assert_eq!(validate(&duplicate), Err(ValidateError::DuplicateNames));
    let separator = top(None, vec![port("a___0", Direction::Input, 1, None, true)]);
    assert_eq!(validate(&separator), Err(ValidateError::NameContainsSeparator));
    let none = top(None, vec![port("a", Direction::Input, 1, None, false)]);
    assert_eq!(validate(&none), Err(ValidateError::TriggerCount));
    let two = top(Some("posedge a"), vec![port("a", Direction::Input, 1, None, true)]);
    assert_eq!(validate(&two), Err(ValidateError::TriggerCount));
    let three = top(None, vec![
        port("a", Direction::Input, 1, None, true),
        port("b", Direction::Input, 1, None, true),
        port("c", Direction::Input, 1, None, true),
    ]);
    assert_eq!(validate(&three), Err(ValidateError::TriggerCount));
    let module_only = top(Some("posedge a"), vec![port("a", Direction::Input, 1, None, false)]);
    assert_eq!(validate(&module_only), Ok(()));
}

#[test]
fn valid_results_generate() {
    for pr in [invert(), top(Some("negedge x"), vec![port("x", Direction::Input, 128, Some(2), false)])] {
        assert_eq!(validate(&pr), Ok(()));
        assert!(generate(&pr).is_ok());
        assert!(build_output(&pr).is_ok());
    }
}

#[test]
fn build_reports_each_stage() {
    let none = top(None, vec![port("a", Direction::Input, 1, None, false)]);
    assert!(matches!(build_output(&none), Err(BuildError::Validate(ValidateError::TriggerCount))));
    let invalid_rust = top(None, vec![port("a-b", Direction::Input, 1, None, true)]);
    assert!(matches!(build_output(&invalid_rust), Err(BuildError::Generate(GenerateError::InvalidRust(_)))));
    let out = build_output(&invert()).unwrap();
    assert_eq!(out.sv, expected_sv(&invert(), "posedge clk"));
}

#[test]
fn tick_argument_names_are_distinct() {
    let pr = top(None, vec![
        port("a", Direction::Input, 1, Some(11), true),
        port("a_", Direction::Input, 1, Some(2), false),
        port("a__", Direction::Input, 1, Some(2), false),
        port("a___1", Direction::Output, 1, None, false),
    ]);
    // The last name is rejected; without it the names cannot collide.
    assert_eq!(validate(&pr), Err(ValidateError::NameContainsSeparator));
    let mut ok = pr;
    ok.ports.pop();
    assert_eq!(validate(&ok), Ok(()));
    let sv = generate_sv(&ok).unwrap();
    let start = sv.find("top_tick(").unwrap() + "top_tick(".len();
    let end = sv[start..].find(')').unwrap() + start;
    let names: Vec<&str> = sv[start..end].split(", ").map(|d| d.rsplit(' ').next().unwrap()).collect();
    let mut sorted = names.clone();
    sorted.sort();
    sorted.dedup();
    assert_eq!(sorted.len(), names.len());
    assert_eq!(names.len(), 1 + 11 + 2 + 2);
}

/// The arguments between `open` and the next `)` after it, split at ", ".
fn arguments<'a>(text: &'a str, open: &str) -> Vec<&'a str> {
    let start = text.find(open).unwrap() + open.len();
    let end = text[start..].find(')').unwrap() + start;
    text[start..end].split(", ").collect()
}

#[test]
fn sv_and_rs_tick_arguments_match() {
    let pr = invert();
    let sv = generate_sv(&pr).unwrap();
    let rs = generate_rs(&pr);
    let sv_decl = arguments(&sv, "function byte unsigned top_tick(");
    let sv_call = arguments(&sv, "if (top_tick(");
    let rs_decl = arguments(&rs, "extern \"C\" fn top_tick(");
    assert_eq!(sv_decl.len(), 12);
    assert_eq!(sv_call.len(), 12);
    assert_eq!(rs_decl.len(), 12);
    for k in 1..12 {
        let sv_name = sv_decl[k].rsplit(' ').next().unwrap();
        let (rs_name, rs_type) = rs_decl[k].split_once(": ").unwrap();
        assert_eq!(sv_name, rs_name);
        if sv_decl[k].starts_with("input ") {
            assert_eq!(rs_type, "*const u32");
        } else {
            assert_eq!(rs_type, "*mut u32");
        }
    }
    assert_eq!(sv_call[3], "in_2d[0]");
    assert_eq!(sv_decl[3], "input bit[1:0] in_2d___0");
}

#[test]
fn each_port_is_initialised_in_its_own_struct() {
    let rs = generate_rs(&invert());
    let inputs = &rs[rs.find("let inputs = Inputs {").unwrap()..rs.find("let mut outputs").unwrap()];
    let outputs = &rs[rs.find("let mut outputs = Outputs {").unwrap()..rs.find("let mut guard").unwrap()];
    for name in ["clk:", "in_1d:", "in_2d:"] {
        assert!(inputs.contains(name));
        assert!(!outputs.contains(name));
    }
    for name in ["out_1d:", "out_2d:"] {
        assert!(outputs.contains(name));
        assert!(!inputs.contains(name));
    }
}

#[test]
fn sv_for_the_mux_module() {
    let pr = ParseResult {
        module_name: "mux".to_string(),
        trigger: Some("posedge i_clk".to_string()),
        ports: vec![port("i_clk", Direction::Input, 1, None, false), port("o_wide", Direction::Output, 128, Some(2), false)],
    };
    let sv = generate_sv(&pr).unwrap();
    assert!(sv.contains("always @(posedge i_clk) begin"));
    assert!(sv.contains("mux_tick(input chandle ___instance, input bit[0:0] i_clk, output bit[127:0] o_wide___0, output bit[127:0] o_wide___1);"));
    assert!(sv.contains("mux_tick(___instance___, i_clk, o_wide[0], o_wide[1])"));
}

#[test]
fn generate_accepts_every_rust_identifier() {
    for name in ["é", "r#type", "données_1"] {
        let pr = top(None, vec![port("clk", Direction::Input, 1, None, true), port(name, Direction::Input, 4, None, false)]);
        let out = generate(&pr).unwrap();
        assert!(out.rs.contains(&format!("pub {name}: &'a BitSlice<u32>,")));
    }
    let pr = ParseResult {
        module_name: "modulé".to_string(),
        trigger: None,
        ports: vec![port("clk", Direction::Input, 1, None, true)],
    };
    assert!(generate(&pr).unwrap().rs.contains("fn modulé_new("));
    // A character that no identifier holds gives code that does not parse.
    let euro = top(None, vec![port("a€", Direction::Input, 1, None, true)]);
    assert!(matches!(generate(&euro), Err(GenerateError::InvalidRust(_))));
}
