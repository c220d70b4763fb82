//! Code for services that are given in the declarative form.
//!
//! The code of a service stores the name of the service, jumps to the main
//! part, holds the code of each method, and in the main part jumps to each
//! method in turn. Each method ends with a jump back to the main part.

use crate::code_gen::error::ByteCodeError;
use crate::code_gen::instruction::{
    stream_view, Instruction, SpecInstruction, SpecValue, StackValue,
};
use crate::config::{Method, Service, SpecCall, SpecMethod, SpecService};
use crate::text::join;
use vstd::prelude::*;

verus! {

/// The code of the first `k` calls: for each, the service, the method and a
/// remote call.
pub open spec fn lower_calls(calls: Seq<SpecCall>, k: int) -> Seq<SpecInstruction>
    decreases k,
{
    if k <= 0 {
        Seq::<SpecInstruction>::empty()
    } else {
        lower_calls(calls, k - 1) + seq![
            SpecInstruction::Push(SpecValue::Text(calls[k - 1].name)),
            SpecInstruction::Push(SpecValue::Text(calls[k - 1].method)),
            SpecInstruction::RemoteCall,
        ]
    }
}

/// The code of a method: its label, its log line, its pause, its calls, the
/// jump back to the main part and its end label.
pub open spec fn lower_method(m: SpecMethod) -> Seq<SpecInstruction> {
    seq![SpecInstruction::Label(m.name)] + match m.stdout {
        Some(line) => seq![SpecInstruction::Push(SpecValue::Text(line)), SpecInstruction::Stdout],
        None => Seq::<SpecInstruction>::empty(),
    } + match m.sleep_ms {
        Some(ms) => seq![SpecInstruction::Sleep(ms)],
        None => Seq::<SpecInstruction>::empty(),
    } + match m.calls {
        Some(calls) => lower_calls(calls, calls.len() as int),
        None => Seq::<SpecInstruction>::empty(),
    } + seq![SpecInstruction::Jump("main"@), SpecInstruction::Label("end_"@ + m.name)]
}

/// The code of the first `k` methods, one after the other.
pub open spec fn lower_methods(methods: Seq<SpecMethod>, k: int) -> Seq<SpecInstruction>
    decreases k,
{
    if k <= 0 {
        Seq::<SpecInstruction>::empty()
    } else {
        lower_methods(methods, k - 1) + lower_method(methods[k - 1])
    }
}

/// A jump to each of the first `k` methods.
pub open spec fn method_jumps(methods: Seq<SpecMethod>, k: int) -> Seq<SpecInstruction>
    decreases k,
{
    if k <= 0 {
        Seq::<SpecInstruction>::empty()
    } else {
        method_jumps(methods, k - 1).push(SpecInstruction::Jump(methods[k - 1].name))
    }
}

/// The code of a service.
pub open spec fn lower_service(s: SpecService) -> Seq<SpecInstruction> {
    seq![SpecInstruction::StoreVar("name"@, s.name), SpecInstruction::Jump("main"@)]
        + lower_methods(s.methods, s.methods.len() as int) + seq![
        SpecInstruction::Label("main"@),
    ] + method_jumps(s.methods, s.methods.len() as int) + seq![
        SpecInstruction::Label("end_main"@),
    ]
}

/// Appends `more` to `code`.
fn extend(code: &mut Vec<Instruction>, more: Vec<Instruction>)
    ensures
        stream_view(final(code)@) == stream_view(old(code)@) + stream_view(more@),
{
    let ghost added = more@;
    let mut more = more;
    code.append(&mut more);
    proof {
        assert(stream_view(code@) =~= stream_view(old(code)@) + stream_view(added));
    }
}

/// Appends one instruction to `code`.
fn emit(code: &mut Vec<Instruction>, instruction: Instruction)
    ensures
        stream_view(final(code)@) == stream_view(old(code)@).push(instruction@),
{
    code.push(instruction);
    proof {
        assert(stream_view(code@) =~= stream_view(old(code)@).push(instruction@));
    }
}

/// The code generator of one service.
pub struct ServiceByteCodeGenerator<'a> {
    service: &'a Service,
}

impl<'a> ServiceByteCodeGenerator<'a> {
    /// The service that code is generated for.
    pub closed spec fn subject(&self) -> SpecService {
        self.service.deep_view()
    }

    /// A generator for `service`.
    pub fn new(service: &'a Service) -> (generator: Self)
        ensures
            generator.subject() == service.deep_view(),
    {
        Self { service }
    }

    /// Generates the code of the service. Never fails.
    pub fn process_service(&self) -> (res: Result<Vec<Instruction>, ByteCodeError>)
        ensures
            res matches Ok(code) && stream_view(code@) == lower_service(self.subject()),
    {
        let ghost methods = self.service.methods.deep_view();
        let mut code: Vec<Instruction> = Vec::new();
        emit(&mut code, Instruction::StoreVar("name".to_owned(), self.service.name.clone()));
        emit(&mut code, Instruction::Jump("main".to_owned()));
        let ghost head = stream_view(code@);
        proof {
            assert(head + Seq::<SpecInstruction>::empty() =~= head);
        }
        let mut k: usize = 0;
        while k < self.service.methods.len()
            invariant
                k <= self.service.methods.len(),
                methods == self.service.methods.deep_view(),
                stream_view(code@) == head + lower_methods(methods, k as int),
            decreases self.service.methods.len() - k,
        {
            let method_generator = MethodByteCodeGenerator::new(&self.service.methods[k]);
            let method_code = match method_generator.process_method() {
                Ok(method_code) => method_code,
                Err(e) => {
                    return Err(e);
                },
            };
            let ghost before = lower_methods(methods, k as int);
            let ghost this = stream_view(method_code@);
            extend(&mut code, method_code);
            proof {
                assert(head + before + this =~= head + (before + this));
            }
            k += 1;
        }
        emit(&mut code, Instruction::Label("main".to_owned()));
        let ghost body = stream_view(code@);
        proof {
            assert(body + Seq::<SpecInstruction>::empty() =~= body);
        }
        let mut k: usize = 0;
        while k < self.service.methods.len()
            invariant
                k <= self.service.methods.len(),
                methods == self.service.methods.deep_view(),
                stream_view(code@) == body + method_jumps(methods, k as int),
            decreases self.service.methods.len() - k,
        {
            let ghost before = method_jumps(methods, k as int);
            emit(&mut code, Instruction::Jump(self.service.methods[k].name.clone()));
            proof {
                assert((body + before).push(SpecInstruction::Jump(methods[k as int].name)) =~= body
                    + before.push(SpecInstruction::Jump(methods[k as int].name)));
            }
            k += 1;
        }
        emit(&mut code, Instruction::Label("end_main".to_owned()));
        proof {
            assert(stream_view(code@) =~= lower_service(self.subject()));
        }
        Ok(code)
    }
}

/// The code generator of one method.
pub struct MethodByteCodeGenerator<'a> {
    method: &'a Method,
}

impl<'a> MethodByteCodeGenerator<'a> {
    /// The method that code is generated for.
    pub closed spec fn subject(&self) -> SpecMethod {
        self.method.deep_view()
    }

    /// A generator for `method`.
    pub fn new(method: &'a Method) -> (generator: Self)
        ensures
            generator.subject() == method.deep_view(),
    {
        Self { method }
    }

    /// Generates the code of the method. Never fails.
    pub fn process_method(&self) -> (res: Result<Vec<Instruction>, ByteCodeError>)
        ensures
            res matches Ok(code) && stream_view(code@) == lower_method(self.subject()),
    {
        let mut code: Vec<Instruction> = Vec::new();
        emit(&mut code, Instruction::Label(self.method.name.clone()));
        let ghost s0 = stream_view(code@);
        match &self.method.stdout {
            Some(stdout) => {
                emit(&mut code, Instruction::Push(StackValue::String(stdout.clone())));
                emit(&mut code, Instruction::Stdout);
            },
            None => {},
        }
        let ghost s1 = stream_view(code@);
        match self.method.sleep_ms {
            Some(sleep_ms) => {
                emit(&mut code, Instruction::Sleep(sleep_ms));
            },
            None => {},
        }
        let ghost s2 = stream_view(code@);
        match &self.method.calls {
            Some(calls) => {
                let ghost list = calls.deep_view();
                proof {
                    assert(s2 + Seq::<SpecInstruction>::empty() =~= s2);
                }
                let mut k: usize = 0;
                while k < calls.len()
                    invariant
                        k <= calls.len(),
                        list == calls.deep_view(),
                        stream_view(code@) == s2 + lower_calls(list, k as int),
                    decreases calls.len() - k,
                {
                    let call = &calls[k];
                    let ghost before = lower_calls(list, k as int);
                    emit(&mut code, Instruction::Push(StackValue::String(call.name.clone())));
                    emit(&mut code, Instruction::Push(StackValue::String(call.method.clone())));
                    emit(&mut code, Instruction::RemoteCall);
                    proof {
                        assert(stream_view(code@) =~= s2 + (before + seq![
                            SpecInstruction::Push(SpecValue::Text(list[k as int].name)),
                            SpecInstruction::Push(SpecValue::Text(list[k as int].method)),
                            SpecInstruction::RemoteCall,
                        ]));
                    }
                    k += 1;
                }
            },
            None => {},
        }
        emit(&mut code, Instruction::Jump("main".to_owned()));
        emit(&mut code, Instruction::Label(join("end_", self.method.name.as_str())));
        proof {
            assert(stream_view(code@) =~= lower_method(self.subject()));
        }
        Ok(code)
    }
}

} // verus!
