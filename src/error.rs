use vstd::prelude::*;
use crate::ast::Span;

verus! {

/// A diagnostic of the compiler, with the source text it points into.
#[derive(Debug)]
pub enum ZError {
    SyntaxError { src: String, span: Span, message: String },
    TypeError { src: String, span: Span, message: String },
    NameError { src: String, span: Span, message: String },
    RuntimeError { message: String },
}

impl ZError {
    pub fn syntax_error(src: String, span: Span, message: String) -> (r: ZError)
        ensures
            r == (ZError::SyntaxError { src, span, message }),
    {
        ZError::SyntaxError { src, span, message }
    }

    pub fn type_error(src: String, span: Span, message: String) -> (r: ZError)
        ensures
            r == (ZError::TypeError { src, span, message }),
    {
        ZError::TypeError { src, span, message }
    }

    pub fn name_error(src: String, span: Span, message: String) -> (r: ZError)
        ensures
            r == (ZError::NameError { src, span, message }),
    {
        ZError::NameError { src, span, message }
    }

    pub fn runtime_error(message: String) -> (r: ZError)
        ensures
            r == (ZError::RuntimeError { message }),
    {
        ZError::RuntimeError { message }
    }
}

} // verus!
