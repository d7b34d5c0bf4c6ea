//! Generation of the SystemVerilog DPI-C import file and of the Rust binding
//! file for a parsed module.

use vstd::prelude::*;
use vstd::string::*;

use crate::parser::{ports_view, Direction, ParseResult, Port, SpecParseResult, SpecPort};
use crate::text::{decimal, is_name, is_name_text, join, join_strings, string_views, u64_to_decimal};

verus! {

/// The SystemVerilog include file: DPI-C imports of `{prefix}_new`,
/// `{prefix}_free` and `{prefix}_tick`, the block that reads the plusarg
/// `+{prefix}=...` and creates the instance with the module path and that
/// plusarg, the block that frees it, and the `always` block that ticks it on
/// each trigger event.
pub open spec fn sv_text(prefix: Seq<char>, tick_decl_args: Seq<char>, trigger: Seq<char>, tick_call_args: Seq<char>) -> Seq<char> {
    "\n    import \"DPI-C\" function chandle "@
        + prefix
        + "_new(input string module_path, input string plusarg);\n    import \"DPI-C\" function void "@
        + prefix
        + "_free(input chandle ___instance);\n    import \"DPI-C\" function byte unsigned "@
        + prefix
        + "_tick("@
        + tick_decl_args
        + ");\n\n    chandle ___instance___ = null;\n\n    initial begin\n        string ___plusarg___;\n        void'($value$plusargs(\""@
        + prefix
        + "=%s\", ___plusarg___));\n        ___instance___ = "@
        + prefix
        + "_new($sformatf(\"%m\"), ___plusarg___);\n        if (___instance___ == null) begin\n            $fatal(0, \"Failed to create "@
        + prefix
        + " instance.\");\n        end\n    end\n\n    final begin\n        if (___instance___ !== null) begin\n            "@
        + prefix
        + "_free(___instance___);\n            ___instance___ = null;\n        end\n    end\n\n    always @("@
        + trigger
        + ") begin\n        if ("@
        + prefix
        + "_tick("@
        + tick_call_args
        + ") != 0) begin\n            $fatal(0, \"Failed to tick "@
        + prefix
        + " instance.\");\n        end\n    end\n    "@
}

/// Writes the SystemVerilog include file.
fn render_sv(prefix: &str, tick_decl_args: &str, trigger: &str, tick_call_args: &str) -> (s: String)
    ensures
        s@ == sv_text(prefix@, tick_decl_args@, trigger@, tick_call_args@),
{
    let mut s = String::new();
    s.append("\n    import \"DPI-C\" function chandle ");
    s.append(prefix);
    s.append("_new(input string module_path, input string plusarg);\n    import \"DPI-C\" function void ");
    s.append(prefix);
    s.append("_free(input chandle ___instance);\n    import \"DPI-C\" function byte unsigned ");
    s.append(prefix);
    s.append("_tick(");
    s.append(tick_decl_args);
    s.append(");\n\n    chandle ___instance___ = null;\n\n    initial begin\n        string ___plusarg___;\n        void'($value$plusargs(\"");
    s.append(prefix);
    s.append("=%s\", ___plusarg___));\n        ___instance___ = ");
    s.append(prefix);
    s.append("_new($sformatf(\"%m\"), ___plusarg___);\n        if (___instance___ == null) begin\n            $fatal(0, \"Failed to create ");
    s.append(prefix);
    s.append(" instance.\");\n        end\n    end\n\n    final begin\n        if (___instance___ !== null) begin\n            ");
    s.append(prefix);
    s.append("_free(___instance___);\n            ___instance___ = null;\n        end\n    end\n\n    always @(");
    s.append(trigger);
    s.append(") begin\n        if (");
    s.append(prefix);
    s.append("_tick(");
    s.append(tick_call_args);
    s.append(") != 0) begin\n            $fatal(0, \"Failed to tick ");
    s.append(prefix);
    s.append(" instance.\");\n        end\n    end\n    ");
    assert(s@ =~= sv_text(prefix@, tick_decl_args@, trigger@, tick_call_args@));
    s
}

/// The Rust binding file: the `Inputs` and `Outputs` structs and the
/// `{prefix}_new`, `{prefix}_tick` and `{prefix}_free` functions.
pub open spec fn rs_text(input_members: Seq<char>, output_members: Seq<char>, prefix: Seq<char>, tick_decl_args: Seq<char>, input_initialisation: Seq<char>, output_initialisation: Seq<char>) -> Seq<char> {
    "\nuse core::ffi::{c_char, CStr};\nuse core::marker::PhantomData;\nuse std::sync::{Arc, Mutex};\nuse bitvec::{slice::BitSlice, ptr::{bitslice_from_raw_parts, bitslice_from_raw_parts_mut}};\nuse super::Instance;\n\npub struct Inputs<'a> {\n"@
        + input_members
        + "\npub ___lifetime: PhantomData<&'a ()>,\n}\n\npub struct Outputs<'a> {\n"@
        + output_members
        + "\npub ___lifetime: PhantomData<&'a ()>,\n}\n\n#[no_mangle]\nextern \"C\" fn "@
        + prefix
        + "_new(module_path: *const c_char, plusarg: *const c_char) -> *const Mutex<Instance> {\n    let module_path = unsafe { CStr::from_ptr(module_path) }.to_string_lossy();\n    let plusarg = unsafe { CStr::from_ptr(plusarg) }.to_string_lossy();\n    match Instance::new(&module_path, &plusarg) {\n        Ok(instance) => {\n            Arc::into_raw(instance)\n        }\n        Err(e) => {\n            eprintln!(\"Error in "@
        + prefix
        + "_new: {e:?}\");\n            std::ptr::null()\n        }\n    }\n}\n\n#[repr(u8)]\nenum ReturnCode {\n    Success = 0,\n    Failure = 1,\n}\n\n#[no_mangle]\nextern \"C\" fn "@
        + prefix
        + "_tick("@
        + tick_decl_args
        + ") -> ReturnCode {\n    unsafe {\n        let inputs = Inputs {\n            "@
        + input_initialisation
        + "\n            ___lifetime: PhantomData,\n        };\n        let mut outputs = Outputs {\n            "@
        + output_initialisation
        + "\n            ___lifetime: PhantomData,\n        };\n        let mut guard = instance.as_ref().unwrap().lock().unwrap();\n        match guard.tick(&inputs, &mut outputs) {\n            Ok(()) => {\n                ReturnCode::Success\n            }\n            Err(e) => {\n                eprintln!(\"Error in "@
        + prefix
        + "_tick: {e:?}\");\n                ReturnCode::Failure\n            }\n        }\n    }\n}\n\n#[no_mangle]\nextern \"C\" fn "@
        + prefix
        + "_free(instance: *const Mutex<Instance>) {\n    // Make new Arc and drop it to free it.\n    unsafe {\n        Arc::from_raw(instance);\n    }\n}\n"@
}

/// Writes the Rust binding file.
fn render_rs(input_members: &str, output_members: &str, prefix: &str, tick_decl_args: &str, input_initialisation: &str, output_initialisation: &str) -> (s: String)
    ensures
        s@ == rs_text(input_members@, output_members@, prefix@, tick_decl_args@, input_initialisation@, output_initialisation@),
{
    let mut s = String::new();
    s.append("\nuse core::ffi::{c_char, CStr};\nuse core::marker::PhantomData;\nuse std::sync::{Arc, Mutex};\nuse bitvec::{slice::BitSlice, ptr::{bitslice_from_raw_parts, bitslice_from_raw_parts_mut}};\nuse super::Instance;\n\npub struct Inputs<'a> {\n");
    s.append(input_members);
    s.append("\npub ___lifetime: PhantomData<&'a ()>,\n}\n\npub struct Outputs<'a> {\n");
    s.append(output_members);
    s.append("\npub ___lifetime: PhantomData<&'a ()>,\n}\n\n#[no_mangle]\nextern \"C\" fn ");
    s.append(prefix);
    s.append("_new(module_path: *const c_char, plusarg: *const c_char) -> *const Mutex<Instance> {\n    let module_path = unsafe { CStr::from_ptr(module_path) }.to_string_lossy();\n    let plusarg = unsafe { CStr::from_ptr(plusarg) }.to_string_lossy();\n    match Instance::new(&module_path, &plusarg) {\n        Ok(instance) => {\n            Arc::into_raw(instance)\n        }\n        Err(e) => {\n            eprintln!(\"Error in ");
    s.append(prefix);
    s.append("_new: {e:?}\");\n            std::ptr::null()\n        }\n    }\n}\n\n#[repr(u8)]\nenum ReturnCode {\n    Success = 0,\n    Failure = 1,\n}\n\n#[no_mangle]\nextern \"C\" fn ");
    s.append(prefix);
    s.append("_tick(");
    s.append(tick_decl_args);
    s.append(") -> ReturnCode {\n    unsafe {\n        let inputs = Inputs {\n            ");
    s.append(input_initialisation);
    s.append("\n            ___lifetime: PhantomData,\n        };\n        let mut outputs = Outputs {\n            ");
    s.append(output_initialisation);
    s.append("\n            ___lifetime: PhantomData,\n        };\n        let mut guard = instance.as_ref().unwrap().lock().unwrap();\n        match guard.tick(&inputs, &mut outputs) {\n            Ok(()) => {\n                ReturnCode::Success\n            }\n            Err(e) => {\n                eprintln!(\"Error in ");
    s.append(prefix);
    s.append("_tick: {e:?}\");\n                ReturnCode::Failure\n            }\n        }\n    }\n}\n\n#[no_mangle]\nextern \"C\" fn ");
    s.append(prefix);
    s.append("_free(instance: *const Mutex<Instance>) {\n    // Make new Arc and drop it to free it.\n    unsafe {\n        Arc::from_raw(instance);\n    }\n}\n");
    assert(s@ =~= rs_text(input_members@, output_members@, prefix@, tick_decl_args@, input_initialisation@, output_initialisation@));
    s
}


// ---------------------------------------------------------------------
// The text generated for one port.
// ---------------------------------------------------------------------

/// The name of element `i` of a port with an outer dimension: `{name}___{i}`.
pub open spec fn indexed_name(name: Seq<char>, i: nat) -> Seq<char> {
    name + "___"@ + decimal(i)
}

/// The elements of a port: `Some(i)` for each index of its outer dimension,
/// or a single `None` for a port without one.
pub open spec fn element_indices(p: SpecPort) -> Seq<Option<nat>> {
    match p.size_outer {
        Some(o) => Seq::new(o as nat, |i: int| Some(i as nat)),
        None => seq![None],
    }
}

/// The name under which an element is passed to the tick function.
pub open spec fn element_decl_name(p: SpecPort, e: Option<nat>) -> Seq<char> {
    match e {
        Some(i) => indexed_name(p.name, i),
        None => p.name,
    }
}

/// The direction keyword of a tick argument in SystemVerilog.
pub open spec fn sv_arg_decl_direction(d: Direction) -> Seq<char> {
    match d {
        Direction::Input => "input"@,
        Direction::Output => "output"@,
    }
}

/// The SystemVerilog declaration of the tick argument of one element: a
/// `bit[N-1:0]` vector of the port's inner width.
pub open spec fn sv_decl_arg(p: SpecPort, e: Option<nat>) -> Seq<char> {
    sv_arg_decl_direction(p.direction) + " bit["@ + decimal((p.size_inner - 1) as nat) + ":0] "@
        + element_decl_name(p, e)
}

/// The SystemVerilog expression passed as the tick argument of one element.
pub open spec fn sv_call_arg(p: SpecPort, e: Option<nat>) -> Seq<char> {
    match e {
        Some(i) => p.name + "["@ + decimal(i) + "]"@,
        None => p.name,
    }
}

pub open spec fn sv_decl_args(p: SpecPort) -> Seq<Seq<char>> {
    element_indices(p).map_values(|e: Option<nat>| sv_decl_arg(p, e))
}

pub open spec fn sv_call_args(p: SpecPort) -> Seq<Seq<char>> {
    element_indices(p).map_values(|e: Option<nat>| sv_call_arg(p, e))
}

/// The Rust type of a tick argument: a pointer to the 32-bit words of the
/// element's bit vector, `*const` for an input and `*mut` for an output.
pub open spec fn rs_argument_type(p: SpecPort) -> Seq<char> {
    match p.direction {
        Direction::Input => "*const u32"@,
        Direction::Output => "*mut u32"@,
    }
}

/// The Rust declaration of the tick argument of one element.
pub open spec fn rs_decl_arg(p: SpecPort, e: Option<nat>) -> Seq<char> {
    element_decl_name(p, e) + ": "@ + rs_argument_type(p)
}

pub open spec fn rs_decl_args(p: SpecPort) -> Seq<Seq<char>> {
    element_indices(p).map_values(|e: Option<nat>| rs_decl_arg(p, e))
}

/// The Rust type of one element in the `Inputs`/`Outputs` struct: `bool` or
/// `&mut bool` for a single bit, a bit slice otherwise.
pub open spec fn rs_element_type(p: SpecPort) -> Seq<char> {
    if p.size_inner == 1 {
        match p.direction {
            Direction::Input => "bool"@,
            Direction::Output => "&'a mut bool"@,
        }
    } else {
        match p.direction {
            Direction::Input => "&'a BitSlice<u32>"@,
            Direction::Output => "&'a mut BitSlice<u32>"@,
        }
    }
}

/// The Rust type of the `Inputs`/`Outputs` field of a port.
pub open spec fn rs_field_type(p: SpecPort) -> Seq<char> {
    match p.size_outer {
        Some(o) => "["@ + rs_element_type(p) + "; "@ + decimal(o as nat) + "]"@,
        None => rs_element_type(p),
    }
}

/// The field of a port in the `Inputs` (or `Outputs`) struct.
pub open spec fn rs_member(p: SpecPort) -> Seq<char> {
    "pub "@ + p.name + ": "@ + rs_field_type(p) + ","@
}

pub open spec fn rs_slice_function(d: Direction) -> Seq<char> {
    match d {
        Direction::Input => "bitslice_from_raw_parts"@,
        Direction::Output => "bitslice_from_raw_parts_mut"@,
    }
}

pub open spec fn rs_slice_reference(d: Direction) -> Seq<char> {
    match d {
        Direction::Input => "&"@,
        Direction::Output => "&mut "@,
    }
}

/// The value of one element built from its tick argument: for a single bit,
/// the lowest bit of the input word as a `bool`, or the output word taken as
/// a `&mut bool`; otherwise a bit slice over the words.
pub open spec fn rs_init_element(p: SpecPort, e: Option<nat>) -> Seq<char> {
    if p.size_inner == 1 {
        match p.direction {
            Direction::Input => "(*"@ + element_decl_name(p, e) + " & 1) != 0"@,
            Direction::Output => "&mut *("@ + element_decl_name(p, e) + " as *mut bool)"@,
        }
    } else {
        rs_slice_reference(p.direction) + "*"@ + rs_slice_function(p.direction) + "("@ + element_decl_name(p, e)
            + ".try_into().unwrap(), "@ + decimal(p.size_inner as nat) + ")"@
    }
}

/// The initialisation of the field of a port in the `Inputs` or `Outputs`
/// struct of direction `d`; empty for a port of the other direction.
pub open spec fn rs_initialisation(p: SpecPort, d: Direction) -> Seq<char> {
    if p.direction == d {
        match p.size_outer {
            Some(o) => p.name + ": ["@ + join(Seq::new(o as nat, |i: int| rs_init_element(p, Some(i as nat))), ","@)
                + "],"@,
            None => p.name + ": "@ + rs_init_element(p, None) + ","@,
        }
    } else {
        Seq::empty()
    }
}

// ---------------------------------------------------------------------
// The text generated for all ports.
// ---------------------------------------------------------------------

pub open spec fn sv_decl_args_of(ports: Seq<SpecPort>) -> Seq<Seq<char>>
    decreases ports.len(),
{
    if ports.len() == 0 { Seq::empty() } else { sv_decl_args_of(ports.drop_last()) + sv_decl_args(ports.last()) }
}

pub open spec fn sv_call_args_of(ports: Seq<SpecPort>) -> Seq<Seq<char>>
    decreases ports.len(),
{
    if ports.len() == 0 { Seq::empty() } else { sv_call_args_of(ports.drop_last()) + sv_call_args(ports.last()) }
}

pub open spec fn rs_decl_args_of(ports: Seq<SpecPort>) -> Seq<Seq<char>>
    decreases ports.len(),
{
    if ports.len() == 0 { Seq::empty() } else { rs_decl_args_of(ports.drop_last()) + rs_decl_args(ports.last()) }
}

/// The fields of the ports of direction `d`.
pub open spec fn rs_members_of(ports: Seq<SpecPort>, d: Direction) -> Seq<char>
    decreases ports.len(),
{
    if ports.len() == 0 {
        Seq::empty()
    } else {
        rs_members_of(ports.drop_last(), d) + if ports.last().direction == d { rs_member(ports.last()) } else { Seq::empty() }
    }
}

/// The field initialisations of the ports of direction `d`.
pub open spec fn rs_initialisations_of(ports: Seq<SpecPort>, d: Direction) -> Seq<char>
    decreases ports.len(),
{
    if ports.len() == 0 {
        Seq::empty()
    } else {
        rs_initialisations_of(ports.drop_last(), d) + rs_initialisation(ports.last(), d)
    }
}

/// The arguments of the SystemVerilog tick function declaration.
pub open spec fn sv_tick_decl_args(pr: SpecParseResult) -> Seq<Seq<char>> {
    seq!["input chandle ___instance"@] + sv_decl_args_of(pr.ports)
}

/// The arguments of the SystemVerilog tick function call.
pub open spec fn sv_tick_call_args(pr: SpecParseResult) -> Seq<Seq<char>> {
    seq!["___instance___"@] + sv_call_args_of(pr.ports)
}

/// The arguments of the Rust tick function.
pub open spec fn rs_tick_decl_args(pr: SpecParseResult) -> Seq<Seq<char>> {
    seq!["instance: *const Mutex<Instance>"@] + rs_decl_args_of(pr.ports)
}

/// The first port that carries a trigger attribute.
pub open spec fn first_trigger_port(ports: Seq<SpecPort>) -> Option<SpecPort>
    decreases ports.len(),
{
    if ports.len() == 0 {
        None
    } else if ports[0].trigger {
        Some(ports[0])
    } else {
        first_trigger_port(ports.drop_first())
    }
}

/// The SystemVerilog event of the `always` block: the module's trigger
/// attribute, or else `posedge` of the first port with a trigger attribute.
pub open spec fn spec_sv_trigger_expression(pr: SpecParseResult) -> Option<Seq<char>> {
    match pr.trigger {
        Some(t) => Some(t),
        None => match first_trigger_port(pr.ports) {
            Some(p) => Some("posedge "@ + p.name),
            None => None,
        },
    }
}

/// Why code generation fails.
#[derive(Debug)]
pub enum GenerateError {
    /// "No trigger set"
    NoTrigger,
    /// The generated Rust code is not accepted by `syn`.
    InvalidRust(syn::Error),
    /// The generated Rust code parses, but the module name or a port name
    /// holds ASCII punctuation, space or a control character, so that it is
    /// no Rust identifier and has changed the code's structure; such code is
    /// not printed.
    UnprintableRust,
}

pub enum SpecGenerateError {
    NoTrigger,
    InvalidRust,
    UnprintableRust,
}

impl View for GenerateError {
    type V = SpecGenerateError;

    open spec fn view(&self) -> SpecGenerateError {
        match self {
            GenerateError::NoTrigger => SpecGenerateError::NoTrigger,
            GenerateError::InvalidRust(_) => SpecGenerateError::InvalidRust,
            GenerateError::UnprintableRust => SpecGenerateError::UnprintableRust,
        }
    }
}

/// The SystemVerilog file.
pub open spec fn spec_generate_sv(pr: SpecParseResult) -> Result<Seq<char>, SpecGenerateError> {
    match spec_sv_trigger_expression(pr) {
        None => Err(SpecGenerateError::NoTrigger),
        Some(trigger) => Ok(sv_text(
            pr.module_name,
            join(sv_tick_decl_args(pr), ", "@),
            trigger,
            join(sv_tick_call_args(pr), ", "@),
        )),
    }
}

/// The Rust file, before pretty printing.
pub open spec fn spec_generate_rs(pr: SpecParseResult) -> Seq<char> {
    rs_text(
        rs_members_of(pr.ports, Direction::Input),
        rs_members_of(pr.ports, Direction::Output),
        pr.module_name,
        join(rs_tick_decl_args(pr), ", "@),
        rs_initialisations_of(pr.ports, Direction::Input),
        rs_initialisations_of(pr.ports, Direction::Output),
    )
}

/// Every port has an inner width of at least one bit.
pub open spec fn inner_sizes_positive(pr: SpecParseResult) -> bool {
    forall|i: int| 0 <= i < pr.ports.len() ==> #[trigger] pr.ports[i].size_inner >= 1
}

// ---------------------------------------------------------------------
// Generation for one port.
// ---------------------------------------------------------------------

/// Concatenates two texts.
fn cat(a: &str, b: &str) -> (r: String)
    ensures
        r@ == a@ + b@,
{
    let mut r = String::from_str(a);
    r.append(b);
    r
}

/// An outer index as a natural number.
pub open spec fn index_view(outer_index: Option<u64>) -> Option<nat> {
    match outer_index {
        Some(i) => Some(i as nat),
        None => None,
    }
}

impl Port {
    /// The direction keyword used in the SV tick function declaration.
    fn sv_arg_decl_direction(&self) -> (r: &'static str)
        ensures
            r@ == sv_arg_decl_direction(self.direction),
    {
        match self.direction {
            Direction::Input => "input",
            Direction::Output => "output",
        }
    }

    /// The Rust type of one element in the `Inputs`/`Outputs` struct.
    fn rs_element_type(&self) -> (r: &'static str)
        ensures
            r@ == rs_element_type(self@),
    {
        if self.size_inner == 1 {
            match self.direction {
                Direction::Input => "bool",
                Direction::Output => "&'a mut bool",
            }
        } else {
            match self.direction {
                Direction::Input => "&'a BitSlice<u32>",
                Direction::Output => "&'a mut BitSlice<u32>",
            }
        }
    }

    /// The Rust type of the `Inputs`/`Outputs` struct field.
    fn rs_field_type(&self) -> (r: String)
        ensures
            r@ == rs_field_type(self@),
    {
        match self.size_outer {
            Some(size_outer) => {
                let mut r = cat("[", self.rs_element_type());
                r.append("; ");
                r.append(u64_to_decimal(size_outer).as_str());
                r.append("]");
                r
            },
            None => String::from_str(self.rs_element_type()),
        }
    }

    /// The name of one element: `{name}___{i}`, or the port name.
    fn element_decl_name(&self, outer_index: Option<u64>) -> (r: String)
        ensures
            r@ == element_decl_name(self@, index_view(outer_index)),
    {
        match outer_index {
            Some(i) => {
                let mut r = cat(self.name.as_str(), "___");
                r.append(u64_to_decimal(i).as_str());
                r
            },
            None => self.name.clone(),
        }
    }

    /// The SV declaration of the tick argument of one element.
    fn sv_decl_arg(&self, outer_index: Option<u64>) -> (r: String)
        requires
            self.size_inner >= 1,
        ensures
            r@ == sv_decl_arg(self@, index_view(outer_index)),
    {
        let mut d = cat(self.sv_arg_decl_direction(), " bit[");
        d.append(u64_to_decimal(self.size_inner - 1).as_str());
        d.append(":0] ");
        d.append(self.element_decl_name(outer_index).as_str());
        d
    }

    /// The declarations and call expressions of the SV tick arguments of the port.
    fn sv_tick_args(&self) -> (r: (DeclArgs, CallArgs))
        requires
            self.size_inner >= 1,
        ensures
            string_views(r.0.0@) == sv_decl_args(self@),
            string_views(r.1.0@) == sv_call_args(self@),
    {
        let mut decl_args: Vec<String> = Vec::new();
        let mut call_args: Vec<String> = Vec::new();
        match self.size_outer {
            Some(size_outer) => {
                let mut i: u64 = 0;
                while i < size_outer
                    invariant
                        self.size_outer == Some(size_outer),
                        self.size_inner >= 1,
                        i <= size_outer,
                        string_views(decl_args@) =~= Seq::new(i as nat, |k: int| sv_decl_arg(self@, Some(k as nat))),
                        string_views(call_args@) =~= Seq::new(i as nat, |k: int| sv_call_arg(self@, Some(k as nat))),
                    decreases size_outer - i,
                {
                    let d = self.sv_decl_arg(Some(i));
                    let mut c = cat(self.name.as_str(), "[");
                    c.append(u64_to_decimal(i).as_str());
                    c.append("]");
                    let ghost (dv, cv) = (decl_args@, call_args@);
                    decl_args.push(d);
                    call_args.push(c);
                    assert(string_views(decl_args@) =~= string_views(dv).push(d@));
                    assert(string_views(call_args@) =~= string_views(cv).push(c@));
                    i = i + 1;
                }
            },
            None => {
                decl_args.push(self.sv_decl_arg(None));
                call_args.push(self.name.clone());
            },
        }
        (DeclArgs(decl_args), CallArgs(call_args))
    }

    /// The Rust type of a tick argument of the port.
    fn rs_argument_type(&self) -> (r: &'static str)
        ensures
            r@ == rs_argument_type(self@),
    {
        match self.direction {
            Direction::Input => "*const u32",
            Direction::Output => "*mut u32",
        }
    }

    /// The declarations of the Rust tick arguments of the port.
    fn rs_tick_decl_args(&self) -> (r: DeclArgs)
        ensures
            string_views(r.0@) == rs_decl_args(self@),
    {
        let mut decl_args: Vec<String> = Vec::new();
        let arg_type = self.rs_argument_type();
        match self.size_outer {
            Some(size_outer) => {
                let mut i: u64 = 0;
                while i < size_outer
                    invariant
                        self.size_outer == Some(size_outer),
                        arg_type@ == rs_argument_type(self@),
                        i <= size_outer,
                        string_views(decl_args@) =~= Seq::new(i as nat, |k: int| rs_decl_arg(self@, Some(k as nat))),
                    decreases size_outer - i,
                {
                    let mut d = self.element_decl_name(Some(i));
                    d.append(": ");
                    d.append(arg_type);
                    let ghost dv = decl_args@;
                    decl_args.push(d);
                    assert(string_views(decl_args@) =~= string_views(dv).push(d@));
                    i = i + 1;
                }
            },
            None => {
                let mut d = cat(self.name.as_str(), ": ");
                d.append(arg_type);
                decl_args.push(d);
            },
        }
        DeclArgs(decl_args)
    }

    /// The value of one element of the port's field, built from its tick
    /// argument.
    fn rs_init_element(&self, outer_index: Option<u64>) -> (r: String)
        ensures
            r@ == rs_init_element(self@, index_view(outer_index)),
    {
        let name = self.element_decl_name(outer_index);
        if self.size_inner == 1 {
            match self.direction {
                Direction::Input => {
                    let mut r = cat("(*", name.as_str());
                    r.append(" & 1) != 0");
                    r
                },
                Direction::Output => {
                    let mut r = cat("&mut *(", name.as_str());
                    r.append(" as *mut bool)");
                    r
                },
            }
        } else {
            let (reference, func) = match self.direction {
                Direction::Input => ("&", "bitslice_from_raw_parts"),
                Direction::Output => ("&mut ", "bitslice_from_raw_parts_mut"),
            };
            let mut r = cat(reference, "*");
            r.append(func);
            r.append("(");
            r.append(name.as_str());
            r.append(".try_into().unwrap(), ");
            r.append(u64_to_decimal(self.size_inner).as_str());
            r.append(")");
            r
        }
    }

    /// Rust code that initialises the field of this port in the `Inputs` or
    /// `Outputs` struct; only for a port whose direction matches `direction`.
    fn rs_input_output_initialisation(&self, direction: Direction) -> (r: String)
        ensures
            r@ == rs_initialisation(self@, direction),
    {
        if self.direction == direction {
            match self.size_outer {
                Some(size_outer) => {
                    let mut elems: Vec<String> = Vec::new();
                    let mut i: u64 = 0;
                    while i < size_outer
                        invariant
                            self.size_outer == Some(size_outer),
                            i <= size_outer,
                            string_views(elems@) =~= Seq::new(i as nat, |k: int| rs_init_element(self@, Some(k as nat))),
                        decreases size_outer - i,
                    {
                        let e = self.rs_init_element(Some(i));
                        let ghost ev = elems@;
                        elems.push(e);
                        assert(string_views(elems@) =~= string_views(ev).push(e@));
                        i = i + 1;
                    }
                    let mut r = cat(self.name.as_str(), ": [");
                    r.append(join_strings(&elems, ",").as_str());
                    r.append("],");
                    r
                },
                None => {
                    let mut r = cat(self.name.as_str(), ": ");
                    r.append(self.rs_init_element(None).as_str());
                    r.append(",");
                    r
                },
            }
        } else {
            String::new()
        }
    }
}

// ---------------------------------------------------------------------
// Pretty printing through `syn` and `prettyplease`.
// ---------------------------------------------------------------------

/// `syn::File`, the syntax tree of a Rust source file.
#[verifier::external_type_specification]
#[verifier::external_body]
pub struct ExSynFile(syn::File);

/// `syn::Error`, the error of a failed parse.
#[verifier::external_type_specification]
#[verifier::external_body]
pub struct ExSynError(syn::Error);

/// Whether `syn` accepts the text as a Rust source file.
pub uninterp spec fn parses_as_rust_file(source: Seq<char>) -> bool;

/// The text that `prettyplease` prints for the syntax tree that `syn` parses
/// from the source text.
pub uninterp spec fn pretty_printed(source: Seq<char>) -> Seq<char>;

/// No module or port name holds an ASCII character that a Rust identifier
/// cannot hold (punctuation, space, control character). Every Rust
/// identifier, raw identifiers and non-ASCII ones among them, passes; a name
/// that passes stands in each place of the generated code as one token, or
/// the code does not parse.
pub open spec fn plain_names(pr: SpecParseResult) -> bool {
    &&& is_name(pr.module_name)
    &&& forall|i: int| 0 <= i < pr.ports.len() ==> is_name(#[trigger] pr.ports[i].name)
}

/// The text is the Rust code generated for a module with plain names.
pub open spec fn generated_with_plain_names(source: Seq<char>) -> bool {
    exists|pr: SpecParseResult| #[trigger] plain_names(pr) && source == spec_generate_rs(pr)
}

/// Whether the module name and all port names are plain.
fn has_plain_names(parse_result: &ParseResult) -> (r: bool)
    ensures
        r == plain_names(parse_result@),
{
    if !is_name_text(parse_result.module_name.as_str()) {
        return false;
    }
    let ports = &parse_result.ports;
    let ghost sp = parse_result@.ports;
    let n = ports.len();
    let mut i: usize = 0;
    while i < n
        invariant
            n == ports@.len(),
            sp == ports_view(ports@),
            sp == parse_result@.ports,
            i <= n,
            forall|k: int| 0 <= k < i ==> is_name(#[trigger] sp[k].name),
        decreases n - i,
    {
        assert(sp[i as int] == ports[i as int]@);
        if !is_name_text(ports[i].name.as_str()) {
            assert(!is_name(sp[i as int].name));
            return false;
        }
        i = i + 1;
    }
    true
}

/// A Rust source file that `syn` has parsed, with the text it was parsed
/// from.
pub struct RustFile {
    tree: syn::File,
    source: String,
}

impl View for RustFile {
    type V = Seq<char>;

    closed spec fn view(&self) -> Seq<char> {
        self.source@
    }
}

/// Calls `syn::parse_str::<syn::File>`, which parses Rust source text into
/// a syntax tree, and keeps the text beside the tree. Its contract claims
/// that whether it succeeds depends on the text alone; nothing is stated of
/// the tree itself, which only `unparse` reads.
#[verifier::external_body]
fn parse_rust_file(source: &str) -> (r: Result<RustFile, syn::Error>)
    ensures
        r is Ok <==> parses_as_rust_file(source@),
        r matches Ok(f) ==> f@ == source@,
{
    match syn::parse_str::<syn::File>(source) {
        Ok(tree) => Ok(RustFile { tree, source: source.to_string() }),
        Err(e) => Err(e),
    }
}

/// Calls `prettyplease::unparse`, which prints a syntax tree as formatted
/// Rust source. Its contract claims that the printed text is a function of
/// the source text the tree was parsed from. `prettyplease` built without
/// its `verbatim` feature panics on a tree that holds a node `syn` could
/// only keep as raw tokens (such as a bodiless function item); the
/// `requires` admits only the generated code of a module with plain names.
/// Without ASCII punctuation in the names, every name stands as one token in
/// a place where the template expects an identifier, so code that parses
/// has the items, types and expressions of the fixed template. That
/// the printer's internal invariants hold on such a tree is not stated.
#[verifier::external_body]
fn unparse(file: &RustFile) -> (r: String)
    requires
        generated_with_plain_names(file@),
    ensures
        r@ == pretty_printed(file@),
{
    prettyplease::unparse(&file.tree)
}

/// Pretty prints the generated Rust code of a module. Only works on valid
/// Rust code, so this also acts as a syntax check; code with names that are
/// not plain is not printed.
fn pretty_print_rust(parse_result: &ParseResult, input: &str) -> (r: Result<String, GenerateError>)
    requires
        input@ == spec_generate_rs(parse_result@),
    ensures
        r is Ok <==> parses_as_rust_file(input@) && plain_names(parse_result@),
        r matches Ok(s) ==> s@ == pretty_printed(input@),
        r matches Err(e) ==> e@ == if !parses_as_rust_file(input@) {
            SpecGenerateError::InvalidRust
        } else {
            SpecGenerateError::UnprintableRust
        },
{
    let syntax_tree = match parse_rust_file(input) {
        Ok(tree) => tree,
        Err(e) => return Err(GenerateError::InvalidRust(e)),
    };
    if !has_plain_names(parse_result) {
        return Err(GenerateError::UnprintableRust);
    }
    assert(plain_names(parse_result@));
    Ok(unparse(&syntax_tree))
}

// ---------------------------------------------------------------------
// Generation for a parse result.
// ---------------------------------------------------------------------

/// The SystemVerilog event expression of the trigger, e.g. "posedge i_clk":
/// the module's trigger attribute, or else `posedge` of the first port that
/// carries a trigger attribute.
fn sv_trigger_expression(parse_result: &ParseResult) -> (r: Result<String, GenerateError>)
    ensures
        match r {
            Ok(t) => spec_sv_trigger_expression(parse_result@) == Some(t@),
            Err(e) => spec_sv_trigger_expression(parse_result@) is None && e@ == SpecGenerateError::NoTrigger,
        },
{
    match &parse_result.trigger {
        Some(trigger) => Ok(trigger.clone()),
        None => {
            let ports = &parse_result.ports;
            let ghost sp = parse_result@.ports;
            let n = ports.len();
            let mut i: usize = 0;
            assert(sp.skip(0) =~= sp);
            while i < n
                invariant
                    n == ports@.len(),
                    sp == ports_view(ports@),
                    sp == parse_result@.ports,
                    parse_result@.trigger is None,
                    i <= n,
                    first_trigger_port(sp) == first_trigger_port(sp.skip(i as int)),
                decreases n - i,
            {
                assert(sp.skip(i as int)[0] == ports[i as int]@);
                assert(sp.skip(i as int).drop_first() =~= sp.skip(i + 1));
                if ports[i].trigger {
                    return Ok(cat("posedge ", ports[i].name.as_str()));
                }
                i = i + 1;
            }
            assert(sp.skip(n as int) =~= Seq::<SpecPort>::empty());
            Err(GenerateError::NoTrigger)
        },
    }
}

/// Appends the strings of `other` to `v`.
fn extend(v: &mut Vec<String>, other: Vec<String>)
    ensures
        string_views(final(v)@) == string_views(old(v)@) + string_views(other@),
{
    let mut other = other;
    let ghost o = other@;
    v.append(&mut other);
    assert(string_views(v@) =~= string_views(old(v)@) + string_views(o));
}

/// Generates the SystemVerilog code: the DPI-C imports of the `_new`,
/// `_free` and `_tick` functions of the module, and the blocks that create
/// the instance, free it, and call `_tick` on each trigger event with one
/// argument per port element.
pub fn generate_sv(parse_result: &ParseResult) -> (r: Result<String, GenerateError>)
    requires
        inner_sizes_positive(parse_result@),
    ensures
        match r {
            Ok(s) => spec_generate_sv(parse_result@) == Ok::<Seq<char>, SpecGenerateError>(s@),
            Err(e) => spec_generate_sv(parse_result@) == Err::<Seq<char>, SpecGenerateError>(e@),
        },
{
    let ports = &parse_result.ports;
    let ghost sp = parse_result@.ports;
    // Arguments to the tick() function in the declaration.
    let mut tick_decl_args: Vec<String> = Vec::new();
    tick_decl_args.push(String::from_str("input chandle ___instance"));
    // Arguments to the tick() function at the call site.
    let mut tick_call_args: Vec<String> = Vec::new();
    tick_call_args.push(String::from_str("___instance___"));
    let n = ports.len();
    let mut i: usize = 0;
    assert(sp.take(0) =~= Seq::<SpecPort>::empty());
    while i < n
        invariant
            n == ports@.len(),
            sp == ports_view(ports@),
            sp == parse_result@.ports,
            inner_sizes_positive(parse_result@),
            i <= n,
            string_views(tick_decl_args@) == seq!["input chandle ___instance"@] + sv_decl_args_of(sp.take(i as int)),
            string_views(tick_call_args@) == seq!["___instance___"@] + sv_call_args_of(sp.take(i as int)),
        decreases n - i,
    {
        assert(sp[i as int].size_inner >= 1);
        let (port_decl_args, port_call_args) = ports[i].sv_tick_args();
        extend(&mut tick_decl_args, port_decl_args.0);
        extend(&mut tick_call_args, port_call_args.0);
        assert(sp.take(i + 1).drop_last() =~= sp.take(i as int));
        i = i + 1;
    }
    assert(sp.take(n as int) =~= sp);
    let trigger = sv_trigger_expression(parse_result)?;
    Ok(render_sv(
        parse_result.module_name.as_str(),
        join_strings(&tick_decl_args, ", ").as_str(),
        trigger.as_str(),
        join_strings(&tick_call_args, ", ").as_str(),
    ))
}

/// Generates the Rust code, before pretty printing: the `Inputs` and
/// `Outputs` structs with one field per port, and the `_new`, `_tick` and
/// `_free` functions that SystemVerilog calls.
pub fn generate_rs(parse_result: &ParseResult) -> (r: String)
    ensures
        r@ == spec_generate_rs(parse_result@),
{
    let ports = &parse_result.ports;
    let ghost sp = parse_result@.ports;
    let mut input_members = String::new();
    let mut output_members = String::new();
    let mut input_initialisation = String::new();
    let mut output_initialisation = String::new();
    let mut tick_decl_args: Vec<String> = Vec::new();
    tick_decl_args.push(String::from_str("instance: *const Mutex<Instance>"));
    let n = ports.len();
    let mut i: usize = 0;
    assert(sp.take(0) =~= Seq::<SpecPort>::empty());
    while i < n
        invariant
            n == ports@.len(),
            sp == ports_view(ports@),
            sp == parse_result@.ports,
            i <= n,
            input_members@ == rs_members_of(sp.take(i as int), Direction::Input),
            output_members@ == rs_members_of(sp.take(i as int), Direction::Output),
            input_initialisation@ == rs_initialisations_of(sp.take(i as int), Direction::Input),
            output_initialisation@ == rs_initialisations_of(sp.take(i as int), Direction::Output),
            string_views(tick_decl_args@) == seq!["instance: *const Mutex<Instance>"@] + rs_decl_args_of(sp.take(i as int)),
        decreases n - i,
    {
        let port = &ports[i];
        assert(sp.take(i + 1).drop_last() =~= sp.take(i as int));
        assert(sp.take(i + 1).last() == port@);
        // Add a member to either the `Inputs` or `Outputs` struct for the port.
        let mut member = cat("pub ", port.name.as_str());
        member.append(": ");
        member.append(port.rs_field_type().as_str());
        member.append(",");
        match port.direction {
            Direction::Input => {
                input_members.append(member.as_str());
                assert(output_members@ =~= output_members@ + Seq::<char>::empty());
            },
            Direction::Output => {
                output_members.append(member.as_str());
                assert(input_members@ =~= input_members@ + Seq::<char>::empty());
            },
        }
        extend(&mut tick_decl_args, port.rs_tick_decl_args().0);
        input_initialisation.append(port.rs_input_output_initialisation(Direction::Input).as_str());
        output_initialisation.append(port.rs_input_output_initialisation(Direction::Output).as_str());
        i = i + 1;
    }
    assert(sp.take(n as int) =~= sp);
    render_rs(
        input_members.as_str(),
        output_members.as_str(),
        parse_result.module_name.as_str(),
        join_strings(&tick_decl_args, ", ").as_str(),
        input_initialisation.as_str(),
        output_initialisation.as_str(),
    )
}

/// Generated SystemVerilog and Rust code.
pub struct Output {
    pub sv: String,
    pub rs: String,
}

/// Generates SystemVerilog and Rust code. The Rust code is pretty printed,
/// which fails if it does not parse as a Rust file.
pub fn generate(parse_result: &ParseResult) -> (r: Result<Output, GenerateError>)
    requires
        inner_sizes_positive(parse_result@),
    ensures
        r is Ok <==> spec_sv_trigger_expression(parse_result@) is Some
            && parses_as_rust_file(spec_generate_rs(parse_result@)) && plain_names(parse_result@),
        r matches Ok(out) ==> spec_generate_sv(parse_result@) == Ok::<Seq<char>, SpecGenerateError>(out.sv@)
            && out.rs@ == pretty_printed(spec_generate_rs(parse_result@)),
        r matches Err(e) ==> e@ == generate_error(parse_result@),
{
    let sv = generate_sv(parse_result)?;
    let rs_text = generate_rs(parse_result);
    let rs = pretty_print_rust(parse_result, rs_text.as_str())?;
    Ok(Output { sv, rs })
}

/// The error of code generation for a module on which it fails.
pub open spec fn generate_error(pr: SpecParseResult) -> SpecGenerateError {
    if spec_sv_trigger_expression(pr) is None {
        SpecGenerateError::NoTrigger
    } else if !parses_as_rust_file(spec_generate_rs(pr)) {
        SpecGenerateError::InvalidRust
    } else {
        SpecGenerateError::UnprintableRust
    }
}

/// Declarations of tick function arguments.
struct DeclArgs(Vec<String>);

/// Expressions passed as tick function arguments.
struct CallArgs(Vec<String>);

} // verus!
