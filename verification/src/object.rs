//! Runtime values.
//!
//! Evaluation produces an [`Object`]: an integer, a boolean, null, a
//! wrapped return value, an error carrying a message, or a function
//! value (a closure). A closure shares its parameter list and body with
//! the literal it was made from, and names the environment it captured
//! by its handle in the evaluator's environment arena.
//!
//! Each object has a ghost view ([`ObjV`]); `inspect` renders an object
//! for a human, as specified by [`inspect_of`].

use vstd::prelude::*;
use vstd::string::StringExecFns;
use std::rc::Rc;
use crate::ast::BlockStatement;
use crate::ast::Identifier;
use crate::ast::StmtV;
use crate::ast::idents_view;
use crate::ast::join_comma;
use crate::ast::params_string;
use crate::ast::render_stmts;
use crate::ast::stmts_view;
use crate::strutil::dec_int;
use crate::strutil::i64_to_string;

verus! {

#[derive(Debug, PartialEq, Eq, Copy, Clone, Structural)]
pub enum ObjectType {
    IntegerObj,
    BooleanObj,
    NullObj,
    ReturnValueObj,
    ErrorObj,
    FunctionObj,
}

/// The name of an object type, as it appears in error messages.
pub open spec fn obj_type_name(t: ObjectType) -> Seq<char> {
    match t {
        ObjectType::IntegerObj => "INTEGER"@,
        ObjectType::BooleanObj => "BOOLEAN"@,
        ObjectType::NullObj => "NULL"@,
        ObjectType::ReturnValueObj => "RETURN_VALUE"@,
        ObjectType::ErrorObj => "ERROR"@,
        ObjectType::FunctionObj => "FUNCTION"@,
    }
}

impl ObjectType {
    /// The type's name, as it appears in error messages.
    pub fn name(&self) -> (s: String)
        ensures
            s@ == obj_type_name(*self),
    {
        match self {
            ObjectType::IntegerObj => String::from_str("INTEGER"),
            ObjectType::BooleanObj => String::from_str("BOOLEAN"),
            ObjectType::NullObj => String::from_str("NULL"),
            ObjectType::ReturnValueObj => String::from_str("RETURN_VALUE"),
            ObjectType::ErrorObj => String::from_str("ERROR"),
            ObjectType::FunctionObj => String::from_str("FUNCTION"),
        }
    }
}

/// The mathematical model of a runtime value. A function value keeps
/// the views of its parameter names and body, and the handle of the
/// environment it captured.
pub enum ObjV {
    Int { value: i64 },
    Bool { value: bool },
    Null,
    Return { value: Box<ObjV> },
    Error { message: Seq<char> },
    Func { params: Seq<Seq<char>>, body: Seq<StmtV>, env: int },
}

#[derive(Debug)]
pub enum Object {
    Integer(Integer),
    Boolean(Boolean),
    Null(Null),
    ReturnValue(ReturnValue),
    Error(Error),
    Function(Function),
}

#[derive(Debug)]
pub struct Integer {
    pub value: i64,
}

#[derive(Debug)]
pub struct Boolean {
    pub value: bool,
}

#[derive(Debug)]
pub struct Null {}

#[derive(Debug)]
pub struct ReturnValue {
    pub value: Box<Object>,
}

#[derive(Debug)]
pub struct Error {
    pub message: String,
}

/// A closure: the parameter list and body are shared with the function
/// literal that produced it, and `env` is the handle of the captured
/// environment in the evaluator's arena.
#[derive(Debug)]
pub struct Function {
    pub parameters: Rc<Vec<Identifier>>,
    pub body: Rc<BlockStatement>,
    pub env: usize,
}

pub open spec fn obj_view(o: Object) -> ObjV
    decreases o,
{
    match o {
        Object::Integer(i) => ObjV::Int { value: i.value },
        Object::Boolean(b) => ObjV::Bool { value: b.value },
        Object::Null(n) => ObjV::Null,
        Object::ReturnValue(r) => ObjV::Return { value: Box::new(obj_view(*r.value)) },
        Object::Error(e) => ObjV::Error { message: e.message@ },
        Object::Function(f) => ObjV::Func {
            params: idents_view(f.parameters@),
            body: stmts_view(f.body.statements@),
            env: f.env as int,
        },
    }
}

impl View for Object {
    type V = ObjV;

    open spec fn view(&self) -> ObjV {
        obj_view(*self)
    }
}

/// The type tag of a value.
pub open spec fn obj_type_of(o: ObjV) -> ObjectType {
    match o {
        ObjV::Int { .. } => ObjectType::IntegerObj,
        ObjV::Bool { .. } => ObjectType::BooleanObj,
        ObjV::Null => ObjectType::NullObj,
        ObjV::Return { .. } => ObjectType::ReturnValueObj,
        ObjV::Error { .. } => ObjectType::ErrorObj,
        ObjV::Func { .. } => ObjectType::FunctionObj,
    }
}

/// How a value renders for a human: integers in decimal, booleans and
/// null by name, a return value as what it wraps, an error with an
/// `ERROR: ` prefix, and a function with its parameters and body.
pub open spec fn inspect_of(o: ObjV) -> Seq<char>
    decreases o,
{
    match o {
        ObjV::Int { value } => dec_int(value as int),
        ObjV::Bool { value } => if value {
            "true"@
        } else {
            "false"@
        },
        ObjV::Null => "null"@,
        ObjV::Return { value } => inspect_of(*value),
        ObjV::Error { message } => "ERROR: "@ + message,
        ObjV::Func { params, body, env } => "fn("@ + join_comma(params) + ") {\n"@ + render_stmts(
            body,
        ) + "\n}"@,
    }
}

/// Relies on Rc::clone: returns a handle to the same shared value.
#[verifier::external_body]
pub(crate) fn rc_clone<T>(rc: &Rc<T>) -> (r: Rc<T>)
    ensures
        r == *rc,
{
    Rc::clone(rc)
}

impl Object {
    pub fn get_type(&self) -> (t: ObjectType)
        ensures
            t == obj_type_of(self@),
    {
        match self {
            Object::Integer(_) => ObjectType::IntegerObj,
            Object::Boolean(_) => ObjectType::BooleanObj,
            Object::Null(_) => ObjectType::NullObj,
            Object::ReturnValue(_) => ObjectType::ReturnValueObj,
            Object::Error(_) => ObjectType::ErrorObj,
            Object::Function(_) => ObjectType::FunctionObj,
        }
    }

    /// Renders the value for a human.
    pub fn inspect(&self) -> (s: String)
        ensures
            s@ == inspect_of(self@),
        decreases *self,
    {
        match self {
            Object::Integer(i) => i64_to_string(i.value),
            Object::Boolean(b) => {
                if b.value {
                    String::from_str("true")
                } else {
                    String::from_str("false")
                }
            },
            Object::Null(_) => String::from_str("null"),
            Object::ReturnValue(r) => r.value.inspect(),
            Object::Error(e) => {
                let mut out = String::from_str("ERROR: ");
                out.append(e.message.as_str());
                out
            },
            Object::Function(f) => {
                let mut out = String::from_str("fn(");
                let params = params_string(&f.parameters, 0);
                out.append(params.as_str());
                out.append(") {\n");
                let body = f.body.string();
                out.append(body.as_str());
                out.append("\n}");
                proof {
                    assert(f.parameters@.skip(0) =~= f.parameters@);
                }
                out
            },
        }
    }

    /// An exact copy; a function value shares its parameters, body and
    /// captured environment with the original, as the original does
    /// with the literal it came from.
    pub fn duplicate(&self) -> (r: Object)
        ensures
            r == *self,
        decreases *self,
    {
        match self {
            Object::Integer(i) => Object::Integer(Integer { value: i.value }),
            Object::Boolean(b) => Object::Boolean(Boolean { value: b.value }),
            Object::Null(_) => Object::Null(Null {}),
            Object::ReturnValue(r) => Object::ReturnValue(
                ReturnValue { value: Box::new(r.value.duplicate()) },
            ),
            Object::Error(e) => Object::Error(Error { message: e.message.clone() }),
            Object::Function(f) => Object::Function(
                Function {
                    parameters: rc_clone(&f.parameters),
                    body: rc_clone(&f.body),
                    env: f.env,
                },
            ),
        }
    }
}

} // verus!
