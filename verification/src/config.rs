//! The declarative description of log tasks and services, the older of the
//! two input forms.

use crate::text::decimal_digits;
use vstd::prelude::*;

verus! {

/// A call of a method of another service.
#[derive(Debug, Clone, PartialEq, Eq)]
pub struct Call {
    pub name: String,
    pub method: String,
}

/// A method of a service: an optional log line, an optional pause and the
/// calls it makes.
#[derive(Debug, Clone, PartialEq, Eq)]
pub struct Method {
    pub name: String,
    pub stdout: Option<String>,
    pub sleep_ms: Option<u64>,
    pub calls: Option<Vec<Call>>,
}

/// A service: its name and its methods.
#[derive(Debug, Clone, PartialEq, Eq)]
pub struct Service {
    pub name: String,
    pub methods: Vec<Method>,
}

/// How often a task logs: a number of times, or a named constant, of which
/// `Infinite` is the only one.
#[derive(Debug, Clone, PartialEq, Eq)]
pub enum Count {
    Amount(u64),
    Const(String),
}

/// Where a task logs: `Info` to stdout, `Error` to stderr.
#[derive(Debug, Clone, Copy, PartialEq, Eq)]
pub enum Severity {
    Info,
    Error,
}

/// A log task: a template that is logged once for each of its variables, or
/// as it is where it has none, every `frequency` milliseconds.
#[derive(Debug, Clone, PartialEq, Eq)]
pub struct Task {
    pub name: String,
    pub frequency: u64,
    pub count: Count,
    pub template: String,
    pub vars: Vec<String>,
    pub severity: Severity,
}

/// A whole description: log tasks and services.
#[derive(Debug, Clone, PartialEq, Eq)]
pub struct Config {
    pub logs: Vec<Task>,
    pub services: Vec<Service>,
}

/// The mathematical content of a [`Call`].
pub struct SpecCall {
    pub name: Seq<char>,
    pub method: Seq<char>,
}

/// The mathematical content of a [`Method`].
pub struct SpecMethod {
    pub name: Seq<char>,
    pub stdout: Option<Seq<char>>,
    pub sleep_ms: Option<u64>,
    pub calls: Option<Seq<SpecCall>>,
}

/// The mathematical content of a [`Service`].
pub struct SpecService {
    pub name: Seq<char>,
    pub methods: Seq<SpecMethod>,
}

/// The mathematical content of a [`Count`].
pub enum SpecCount {
    Amount(u64),
    Const(Seq<char>),
}

/// The mathematical content of a [`Task`].
pub struct SpecTask {
    pub name: Seq<char>,
    pub frequency: u64,
    pub count: SpecCount,
    pub template: Seq<char>,
    pub vars: Seq<Seq<char>>,
    pub severity: Severity,
}

impl DeepView for Call {
    type V = SpecCall;

    open spec fn deep_view(&self) -> SpecCall {
        SpecCall { name: self.name@, method: self.method@ }
    }
}

impl DeepView for Method {
    type V = SpecMethod;

    open spec fn deep_view(&self) -> SpecMethod {
        SpecMethod {
            name: self.name@,
            stdout: self.stdout.deep_view(),
            sleep_ms: self.sleep_ms,
            calls: self.calls.deep_view(),
        }
    }
}

impl DeepView for Service {
    type V = SpecService;

    open spec fn deep_view(&self) -> SpecService {
        SpecService { name: self.name@, methods: self.methods.deep_view() }
    }
}

impl DeepView for Count {
    type V = SpecCount;

    open spec fn deep_view(&self) -> SpecCount {
        match self {
            Count::Amount(n) => SpecCount::Amount(*n),
            Count::Const(name) => SpecCount::Const(name@),
        }
    }
}

impl DeepView for Task {
    type V = SpecTask;

    open spec fn deep_view(&self) -> SpecTask {
        SpecTask {
            name: self.name@,
            frequency: self.frequency,
            count: self.count.deep_view(),
            template: self.template@,
            vars: self.vars.deep_view(),
            severity: self.severity,
        }
    }
}

/// The text of a count: the numeral of an amount, or the constant.
pub open spec fn count_text(count: SpecCount) -> Seq<char> {
    match count {
        SpecCount::Amount(n) => decimal_digits(n as nat),
        SpecCount::Const(name) => name,
    }
}

impl Count {
    /// The text of the count.
    pub fn to_string(&self) -> (text: String)
        ensures
            text@ == count_text(self.deep_view()),
    {
        match self {
            Count::Amount(n) => crate::text::decimal(*n),
            Count::Const(name) => name.clone(),
        }
    }
}

} // verus!
