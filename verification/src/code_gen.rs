//! Lowering of a parsed service to a linear instruction stream.
//!
//! The stream of a service `S` has this shape:
//!
//! ```text
//! Label("start_S")
//! Jump("start_S_main")
//!   for each method M:   Label("start_M") <body of M> Ret Label("end_M")
//! Label("start_S_main")
//!   <main part>
//! Label("end_S_main")
//! Label("end_S")
//! ```
//!
//! Without a loop the main part is `CheckInterrupt; Jump("start_S_main")`:
//! the worker idles and serves remote invocations. With a loop that calls
//! the method `M0` it is `Label("start_loop"); Call("start_M0");
//! Jump("start_loop"); Label("end_loop")`.

use crate::code_gen::error::{CodeGenError, SpecCodeGenError};
use crate::code_gen::instruction::{
    stream_view, Instruction, SpecInstruction, SpecValue, StackValue,
};
use crate::parser::grammar::{SpecLoop, SpecMethod, SpecService, SpecStatement};
use crate::parser::{statement_text, Loop, Method, Service, Statement};
use crate::text::join;
use vstd::prelude::*;

pub mod error;
pub mod instruction;
pub mod laws;
pub mod log_byte_code;
pub mod semantics;
pub mod service_byte_code;

verus! {

/// The channel of a print statement.
#[derive(Debug, Clone, Copy, PartialEq, Eq)]
pub enum PrintType {
    Stdout,
    Stderr,
}

/// The instruction that prints to the channel.
pub open spec fn print_instruction(print_type: PrintType) -> SpecInstruction {
    match print_type {
        PrintType::Stdout => SpecInstruction::Stdout,
        PrintType::Stderr => SpecInstruction::Stderr,
    }
}

/// The code that prints `message` once for each argument, the argument in
/// the place of the placeholder of the message.
pub open spec fn lower_print_args(
    message: Seq<char>,
    args: Seq<Seq<char>>,
    print_type: PrintType,
) -> Seq<SpecInstruction>
    decreases args.len(),
{
    if args.len() == 0 {
        Seq::<SpecInstruction>::empty()
    } else {
        lower_print_args(message, args.drop_last(), print_type) + seq![
            SpecInstruction::Push(SpecValue::Text(message)),
            SpecInstruction::Push(SpecValue::Text(args.last())),
            SpecInstruction::Printf,
            print_instruction(print_type),
        ]
    }
}

/// The code of a print statement. Without arguments the message is printed
/// as it is; with an empty list of arguments nothing is printed.
pub open spec fn lower_print(
    message: Seq<char>,
    args: Option<Seq<Seq<char>>>,
    print_type: PrintType,
) -> Seq<SpecInstruction> {
    match args {
        Some(list) => lower_print_args(message, list, print_type),
        None => seq![
            SpecInstruction::Push(SpecValue::Text(message)),
            print_instruction(print_type),
        ],
    }
}

/// The error for a statement that stands where `expected` names what should.
pub open spec fn invalid_statement(expected: Seq<char>, s: SpecStatement) -> SpecCodeGenError {
    SpecCodeGenError::InvalidStatement("Expected "@ + expected + " - Got "@ + statement_text(s))
}

/// The code of a statement of a method. A method cannot call a method of
/// its own service.
pub open spec fn lower_statement(s: SpecStatement) -> Result<
    Seq<SpecInstruction>,
    SpecCodeGenError,
> {
    match s {
        SpecStatement::Stdout { message, args } => Ok(
            lower_print(message, args, PrintType::Stdout),
        ),
        SpecStatement::Stderr { message, args } => Ok(
            lower_print(message, args, PrintType::Stderr),
        ),
        SpecStatement::Sleep { duration } => Ok(seq![SpecInstruction::Sleep(duration)]),
        SpecStatement::Call { service: Some(service), method } => Ok(
            seq![
                SpecInstruction::Push(SpecValue::Text(service)),
                SpecInstruction::Push(SpecValue::Text(method)),
                SpecInstruction::RemoteCall,
            ],
        ),
        SpecStatement::Call { service: None, method } => Err(
            invalid_statement("Remote Call"@, s),
        ),
    }
}

/// The code of a run of statements; the error of the first statement that
/// has one.
pub open spec fn lower_statements(statements: Seq<SpecStatement>) -> Result<
    Seq<SpecInstruction>,
    SpecCodeGenError,
>
    decreases statements.len(),
{
    if statements.len() == 0 {
        Ok(Seq::<SpecInstruction>::empty())
    } else {
        match lower_statements(statements.drop_last()) {
            Err(e) => Err(e),
            Ok(code) => match lower_statement(statements.last()) {
                Err(e) => Err(e),
                Ok(last) => Ok(code + last),
            },
        }
    }
}

/// The label at which the code of the method `name` starts.
pub open spec fn start_label(name: Seq<char>) -> Seq<char> {
    "start_"@ + name
}

/// The label at which the code of the method `name` ends.
pub open spec fn end_label(name: Seq<char>) -> Seq<char> {
    "end_"@ + name
}

/// The label of the main part of the service `name`.
pub open spec fn main_label(name: Seq<char>) -> Seq<char> {
    "start_"@ + name + "_main"@
}

/// The label at which the main part of the service `name` ends.
pub open spec fn main_end_label(name: Seq<char>) -> Seq<char> {
    "end_"@ + name + "_main"@
}

/// The code of a method: its body between two labels, with a return.
pub open spec fn lower_method(m: SpecMethod) -> Result<Seq<SpecInstruction>, SpecCodeGenError> {
    match lower_statements(m.statements) {
        Err(e) => Err(e),
        Ok(body) => Ok(
            seq![SpecInstruction::Label(start_label(m.name))] + body + seq![
                SpecInstruction::Ret,
                SpecInstruction::Label(end_label(m.name)),
            ],
        ),
    }
}

/// The code of the methods, one after the other; the error of the first
/// method that has one.
pub open spec fn lower_methods(methods: Seq<SpecMethod>) -> Result<
    Seq<SpecInstruction>,
    SpecCodeGenError,
>
    decreases methods.len(),
{
    if methods.len() == 0 {
        Ok(Seq::<SpecInstruction>::empty())
    } else {
        match lower_methods(methods.drop_last()) {
            Err(e) => Err(e),
            Ok(code) => match lower_method(methods.last()) {
                Err(e) => Err(e),
                Ok(last) => Ok(code + last),
            },
        }
    }
}

/// The code of a loop. Its first statement decides: it must call a method of
/// the same service, which the code then calls forever. A loop without
/// statements has no code.
pub open spec fn lower_loop(l: SpecLoop) -> Result<Seq<SpecInstruction>, SpecCodeGenError> {
    if l.statements.len() == 0 {
        Ok(Seq::<SpecInstruction>::empty())
    } else {
        match l.statements[0] {
            SpecStatement::Call { service: None, method } => Ok(
                seq![
                    SpecInstruction::Label("start_loop"@),
                    SpecInstruction::Call(start_label(method)),
                    SpecInstruction::Jump("start_loop"@),
                    SpecInstruction::Label("end_loop"@),
                ],
            ),
            SpecStatement::Call { service: Some(_), method } => Err(
                invalid_statement("Local Call"@, l.statements[0]),
            ),
            _ => Err(invalid_statement("Call"@, l.statements[0])),
        }
    }
}

/// The main part of a service: the code of its first loop, or the idle loop
/// where it has none.
pub open spec fn lower_main(s: SpecService) -> Result<Seq<SpecInstruction>, SpecCodeGenError> {
    if s.loops.len() > 0 {
        lower_loop(s.loops[0])
    } else {
        Ok(seq![SpecInstruction::CheckInterrupt, SpecInstruction::Jump(main_label(s.name))])
    }
}

/// The code of a service; the error of its first method that has one, else
/// that of its loop.
pub open spec fn lower_service(s: SpecService) -> Result<Seq<SpecInstruction>, SpecCodeGenError> {
    match lower_methods(s.methods) {
        Err(e) => Err(e),
        Ok(methods) => match lower_main(s) {
            Err(e) => Err(e),
            Ok(main) => Ok(
                seq![
                    SpecInstruction::Label(start_label(s.name)),
                    SpecInstruction::Jump(main_label(s.name)),
                ] + methods + seq![SpecInstruction::Label(main_label(s.name))] + main + seq![
                    SpecInstruction::Label(main_end_label(s.name)),
                    SpecInstruction::Label(end_label(s.name)),
                ],
            ),
        },
    }
}

/// Whether the outcome `res` of generating code is what `expected`
/// describes.
pub open spec fn generated_as(
    res: Result<Vec<Instruction>, CodeGenError>,
    expected: Result<Seq<SpecInstruction>, SpecCodeGenError>,
) -> bool {
    match expected {
        Ok(code) => res matches Ok(v) && stream_view(v@) == code,
        Err(e) => res matches Err(x) && x@ == e,
    }
}

/// The error for `statement`, which stands where `expected` names what
/// should.
fn invalid(expected: &str, statement: &Statement) -> (e: CodeGenError)
    ensures
        e@ == invalid_statement(expected@, statement.deep_view()),
{
    let got = statement.to_string();
    CodeGenError::InvalidStatement(
        join("Expected ", expected).concat(" - Got ").concat(got.as_str()),
    )
}

/// Appends `more` to `code`.
fn extend(code: &mut Vec<Instruction>, more: Vec<Instruction>)
    ensures
        stream_view(final(code)@) == stream_view(old(code)@) + stream_view(more@),
{
    let ghost added = more@;
    let mut more = more;
    code.append(&mut more);
    proof {
        assert(stream_view(code@) =~= stream_view(old(code)@) + stream_view(added));
    }
}

/// Appends one instruction to `code`.
fn emit(code: &mut Vec<Instruction>, instruction: Instruction)
    ensures
        stream_view(final(code)@) == stream_view(old(code)@).push(instruction@),
{
    code.push(instruction);
    proof {
        assert(stream_view(code@) =~= stream_view(old(code)@).push(instruction@));
    }
}

/// The code generator of one service.
pub struct CodeGenerator<'a> {
    ast: &'a Service,
}

impl<'a> CodeGenerator<'a> {
    /// The service that code is generated for.
    pub closed spec fn service(&self) -> SpecService {
        self.ast.deep_view()
    }

    /// A generator for the service `ast`.
    pub fn new(ast: &'a Service) -> (generator: Self)
        ensures
            generator.service() == ast.deep_view(),
    {
        Self { ast }
    }

    /// Generates the code of the service.
    pub fn process(&self) -> (res: Result<Vec<Instruction>, CodeGenError>)
        ensures
            generated_as(res, lower_service(self.service())),
    {
        self.process_service(self.ast)
    }

    fn process_service(&self, service: &Service) -> (res: Result<Vec<Instruction>, CodeGenError>)
        ensures
            generated_as(res, lower_service(service.deep_view())),
    {
        let name = service.name.as_str();
        let mut instructions: Vec<Instruction> = Vec::new();
        emit(&mut instructions, Instruction::Label(join("start_", name)));
        emit(&mut instructions, Instruction::Jump(join("start_", name).concat("_main")));
        let ghost head = stream_view(instructions@);
        let ghost methods = service.methods.deep_view();
        proof {
            assert(methods.take(0) =~= Seq::<SpecMethod>::empty());
            assert(head + Seq::<SpecInstruction>::empty() =~= head);
        }
        let mut k: usize = 0;
        while k < service.methods.len()
            invariant
                k <= service.methods.len(),
                methods == service.methods.deep_view(),
                lower_methods(methods.take(k as int)) matches Ok(code) && stream_view(
                    instructions@,
                ) == head + code,
            decreases service.methods.len() - k,
        {
            proof {
                assert(methods.take(k + 1).drop_last() =~= methods.take(k as int));
                assert(methods.take(k + 1).last() == service.methods[k as int].deep_view());
                lemma_lower_methods_prefix(methods, k + 1);
            }
            match self.process_method(&service.methods[k]) {
                Err(e) => {
                    return Err(e);
                },
                Ok(code) => {
                    let ghost before = lower_methods(methods.take(k as int))->Ok_0;
                    let ghost this = stream_view(code@);
                    extend(&mut instructions, code);
                    proof {
                        assert(head + before + this =~= head + (before + this));
                    }
                },
            }
            k += 1;
        }
        proof {
            assert(methods.take(k as int) =~= methods);
        }
        emit(&mut instructions, Instruction::Label(join("start_", name).concat("_main")));
        if service.loops.len() > 0 {
            match self.process_loop(&service.loops[0]) {
                Err(e) => {
                    return Err(e);
                },
                Ok(code) => {
                    extend(&mut instructions, code);
                },
            }
        } else {
            let ghost before = stream_view(instructions@);
            emit(&mut instructions, Instruction::CheckInterrupt);
            emit(&mut instructions, Instruction::Jump(join("start_", name).concat("_main")));
            proof {
                assert(stream_view(instructions@) =~= before + lower_main(
                    service.deep_view(),
                )->Ok_0);
            }
        }
        emit(&mut instructions, Instruction::Label(join("end_", name).concat("_main")));
        emit(&mut instructions, Instruction::Label(join("end_", name)));
        proof {
            assert(stream_view(instructions@) =~= lower_service(service.deep_view())->Ok_0);
        }
        Ok(instructions)
    }

    fn process_loop(&self, loop_def: &Loop) -> (res: Result<Vec<Instruction>, CodeGenError>)
        ensures
            generated_as(res, lower_loop(loop_def.deep_view())),
    {
        let mut instructions: Vec<Instruction> = Vec::new();
        if loop_def.statements.len() == 0 {
            proof {
                assert(stream_view(instructions@) =~= Seq::<SpecInstruction>::empty());
            }
            return Ok(instructions);
        }
        let first = &loop_def.statements[0];
        match first {
            Statement::Call { service, method } => {
                if service.is_some() {
                    return Err(invalid("Local Call", first));
                }
                emit(&mut instructions, Instruction::Label("start_loop".to_owned()));
                emit(&mut instructions, Instruction::Call(join("start_", method.as_str())));
                emit(&mut instructions, Instruction::Jump("start_loop".to_owned()));
                emit(&mut instructions, Instruction::Label("end_loop".to_owned()));
                proof {
                    assert(stream_view(instructions@) =~= lower_loop(loop_def.deep_view())->Ok_0);
                }
                Ok(instructions)
            },
            _ => Err(invalid("Call", first)),
        }
    }

    fn process_method(&self, method: &Method) -> (res: Result<Vec<Instruction>, CodeGenError>)
        ensures
            generated_as(res, lower_method(method.deep_view())),
    {
        let mut instructions: Vec<Instruction> = Vec::new();
        emit(&mut instructions, Instruction::Label(join("start_", method.name.as_str())));
        let ghost head = stream_view(instructions@);
        let ghost statements = method.statements.deep_view();
        proof {
            assert(statements.take(0) =~= Seq::<SpecStatement>::empty());
            assert(head + Seq::<SpecInstruction>::empty() =~= head);
        }
        let mut k: usize = 0;
        while k < method.statements.len()
            invariant
                k <= method.statements.len(),
                statements == method.statements.deep_view(),
                lower_statements(statements.take(k as int)) matches Ok(code) && stream_view(
                    instructions@,
                ) == head + code,
            decreases method.statements.len() - k,
        {
            let statement = &method.statements[k];
            proof {
                assert(statements.take(k + 1).drop_last() =~= statements.take(k as int));
                assert(statements.take(k + 1).last() == statement.deep_view());
                lemma_lower_statements_prefix(statements, k + 1);
            }
            let ghost before = lower_statements(statements.take(k as int))->Ok_0;
            match statement {
                Statement::Stdout { message, args } => {
                    let code = self.process_print(message.as_str(), args, PrintType::Stdout);
                    let ghost this = stream_view(code@);
                    extend(&mut instructions, code);
                    proof {
                        assert(head + before + this =~= head + (before + this));
                    }
                },
                Statement::Sleep { duration } => {
                    emit(&mut instructions, Instruction::Sleep(*duration));
                    proof {
                        assert((head + before).push(SpecInstruction::Sleep(*duration)) =~= head + (
                        before + seq![SpecInstruction::Sleep(*duration)]));
                    }
                },
                Statement::Call { service, method } => {
                    match service {
                        Some(service) => {
                            emit(
                                &mut instructions,
                                Instruction::Push(StackValue::String(service.clone())),
                            );
                            emit(
                                &mut instructions,
                                Instruction::Push(StackValue::String(method.clone())),
                            );
                            emit(&mut instructions, Instruction::RemoteCall);
                            proof {
                                assert(stream_view(instructions@) =~= head + (before
                                    + lower_statement(statement.deep_view())->Ok_0));
                            }
                        },
                        None => {
                            return Err(invalid("Remote Call", statement));
                        },
                    }
                },
                Statement::Stderr { message, args } => {
                    let code = self.process_print(message.as_str(), args, PrintType::Stderr);
                    let ghost this = stream_view(code@);
                    extend(&mut instructions, code);
                    proof {
                        assert(head + before + this =~= head + (before + this));
                    }
                },
            }
            k += 1;
        }
        proof {
            assert(statements.take(k as int) =~= statements);
        }
        emit(&mut instructions, Instruction::Ret);
        emit(&mut instructions, Instruction::Label(join("end_", method.name.as_str())));
        proof {
            assert(stream_view(instructions@) =~= lower_method(method.deep_view())->Ok_0);
        }
        Ok(instructions)
    }

    fn process_print(
        &self,
        message: &str,
        args: &Option<Vec<String>>,
        print_type: PrintType,
    ) -> (code: Vec<Instruction>)
        ensures
            stream_view(code@) == lower_print(message@, args.deep_view(), print_type),
    {
        let mut instructions: Vec<Instruction> = Vec::new();
        match args {
            Some(args) => {
                let ghost list = args.deep_view();
                proof {
                    assert(list.take(0) =~= Seq::<Seq<char>>::empty());
                    assert(stream_view(instructions@) =~= Seq::<SpecInstruction>::empty());
                }
                let mut k: usize = 0;
                while k < args.len()
                    invariant
                        k <= args.len(),
                        list == args.deep_view(),
                        stream_view(instructions@) == lower_print_args(
                            message@,
                            list.take(k as int),
                            print_type,
                        ),
                    decreases args.len() - k,
                {
                    let ghost before = stream_view(instructions@);
                    emit(
                        &mut instructions,
                        Instruction::Push(StackValue::String(message.to_owned())),
                    );
                    emit(
                        &mut instructions,
                        Instruction::Push(StackValue::String(args[k].clone())),
                    );
                    emit(&mut instructions, Instruction::Printf);
                    match print_type {
                        PrintType::Stdout => emit(&mut instructions, Instruction::Stdout),
                        PrintType::Stderr => emit(&mut instructions, Instruction::Stderr),
                    }
                    proof {
                        assert(list.take(k + 1).drop_last() =~= list.take(k as int));
                        assert(list.take(k + 1).last() == args[k as int]@);
                        assert(stream_view(instructions@) =~= before + seq![
                            SpecInstruction::Push(SpecValue::Text(message@)),
                            SpecInstruction::Push(SpecValue::Text(args[k as int]@)),
                            SpecInstruction::Printf,
                            print_instruction(print_type),
                        ]);
                    }
                    k += 1;
                }
                proof {
                    assert(list.take(k as int) =~= list);
                }
            },
            None => {
                emit(&mut instructions, Instruction::Push(StackValue::String(message.to_owned())));
                match print_type {
                    PrintType::Stdout => emit(&mut instructions, Instruction::Stdout),
                    PrintType::Stderr => emit(&mut instructions, Instruction::Stderr),
                }
                proof {
                    assert(stream_view(instructions@) =~= lower_print(
                        message@,
                        args.deep_view(),
                        print_type,
                    ));
                }
            },
        }
        instructions
    }
}

/// Where the first `k` statements have no error, the error of the whole
/// run, if any, comes from a later statement; where they have one, it is the
/// error of the whole run.
pub proof fn lemma_lower_statements_prefix(statements: Seq<SpecStatement>, k: int)
    requires
        0 <= k <= statements.len(),
    ensures
        lower_statements(statements.take(k)) matches Err(e) ==> lower_statements(statements)
            == Err::<Seq<SpecInstruction>, SpecCodeGenError>(e),
    decreases statements.len() - k,
{
    if k == statements.len() {
        assert(statements.take(k) =~= statements);
    } else {
        assert(statements.take(k + 1).drop_last() =~= statements.take(k));
        lemma_lower_statements_prefix(statements, k + 1);
    }
}

/// The same, for methods.
pub proof fn lemma_lower_methods_prefix(methods: Seq<SpecMethod>, k: int)
    requires
        0 <= k <= methods.len(),
    ensures
        lower_methods(methods.take(k)) matches Err(e) ==> lower_methods(methods) == Err::<
            Seq<SpecInstruction>,
            SpecCodeGenError,
        >(e),
    decreases methods.len() - k,
{
    if k == methods.len() {
        assert(methods.take(k) =~= methods);
    } else {
        assert(methods.take(k + 1).drop_last() =~= methods.take(k));
        lemma_lower_methods_prefix(methods, k + 1);
    }
}

} // verus!
