//! The runtime value and error model, and the binary/unary operator
//! semantics dispatched per value-variant pair.
use vstd::prelude::*;
use vstd::string::StringExecFns;
use crate::ast::{Ctx, CtxModel};
use crate::common::{make_error_msg, spec_error_msg};
use crate::numerics::{
    num_add, num_div, num_eq, num_format, num_ge, num_gt, num_le, num_lt, num_mul, num_neg,
    num_sub, spec_num_add, spec_num_div, spec_num_eq, spec_num_format, spec_num_ge, spec_num_gt,
    spec_num_le, spec_num_lt, spec_num_mul, spec_num_neg, spec_num_sub,
};
use crate::token::{TokenType, TokenTypeModel};

verus! {

/// The mathematical model of a runtime value: string contents as a character
/// sequence, numbers as their IEEE-754 bit pattern.
pub enum ValueModel {
    Str(Seq<char>),
    Num(u64),
    Bool(bool),
    Nil,
}

/// The mathematical model of an error: its category and the characters of
/// its fully formatted diagnostic message.
pub enum ErrorModel {
    LexError(Seq<char>),
    RuntimeError(Seq<char>),
    UnsupportedOperator(Seq<char>),
    ParseError(Seq<char>),
    NameError(Seq<char>),
}

/// An evaluation outcome: a runtime value or an error.
pub type UvlResult = Result<UvlValue, UvlError>;

/// A runtime value: a string, a 64-bit binary floating-point number (carried
/// as its bit pattern), a boolean, or nil. Equality is structural; nil equals
/// only nil.
#[derive(Debug)]
pub enum UvlValue {
    Str(String),
    Num(u64),
    Bool(bool),
    Nil,
}

/// An error, carrying a fully formatted, human-readable diagnostic message.
#[derive(Debug)]
pub enum UvlError {
    LexError(String),
    RuntimeError(String),
    UnsupportedOperator(String),
    ParseError(String),
    NameError(String),
}

impl View for UvlValue {
    type V = ValueModel;

    open spec fn view(&self) -> ValueModel {
        match self {
            UvlValue::Str(s) => ValueModel::Str(s@),
            UvlValue::Num(n) => ValueModel::Num(*n),
            UvlValue::Bool(b) => ValueModel::Bool(*b),
            UvlValue::Nil => ValueModel::Nil,
        }
    }
}

impl View for UvlError {
    type V = ErrorModel;

    open spec fn view(&self) -> ErrorModel {
        match self {
            UvlError::LexError(m) => ErrorModel::LexError(m@),
            UvlError::RuntimeError(m) => ErrorModel::RuntimeError(m@),
            UvlError::UnsupportedOperator(m) => ErrorModel::UnsupportedOperator(m@),
            UvlError::ParseError(m) => ErrorModel::ParseError(m@),
            UvlError::NameError(m) => ErrorModel::NameError(m@),
        }
    }
}

/// The model of an evaluation outcome.
pub open spec fn res_view(r: Result<UvlValue, UvlError>) -> Result<ValueModel, ErrorModel> {
    match r {
        Ok(v) => Ok(v@),
        Err(e) => Err(e@),
    }
}

impl UvlError {
    /// The diagnostic message of this error, whatever its category.
    pub open spec fn spec_message(&self) -> Seq<char> {
        match self@ {
            ErrorModel::LexError(m) => m,
            ErrorModel::RuntimeError(m) => m,
            ErrorModel::UnsupportedOperator(m) => m,
            ErrorModel::ParseError(m) => m,
            ErrorModel::NameError(m) => m,
        }
    }

    /// The diagnostic message of this error, whatever its category.
    pub fn message(&self) -> (r: &String)
        ensures
            r@ == self.spec_message(),
    {
        match self {
            UvlError::LexError(m) => m,
            UvlError::RuntimeError(m) => m,
            UvlError::UnsupportedOperator(m) => m,
            UvlError::ParseError(m) => m,
            UvlError::NameError(m) => m,
        }
    }
}

/// Structural equality of two values: strings by contents, numbers by IEEE
/// comparison, booleans by value, nil only to nil, and nothing across
/// variants.
pub open spec fn spec_value_eq(a: ValueModel, b: ValueModel) -> bool {
    match (a, b) {
        (ValueModel::Str(x), ValueModel::Str(y)) => x == y,
        (ValueModel::Num(x), ValueModel::Num(y)) => spec_num_eq(x, y),
        (ValueModel::Bool(x), ValueModel::Bool(y)) => x == y,
        (ValueModel::Nil, ValueModel::Nil) => true,
        _ => false,
    }
}

/// The display rendering of a value: strings quoted, numbers in decimal,
/// booleans as `true`/`false`, nil as the empty-unit marker.
pub open spec fn spec_display(v: ValueModel) -> Seq<char> {
    match v {
        ValueModel::Str(s) => "\""@ + s + "\""@,
        ValueModel::Num(n) => spec_num_format(n),
        ValueModel::Bool(b) => if b {
            "true"@
        } else {
            "false"@
        },
        ValueModel::Nil => "()"@,
    }
}

/// The name of a value's variant, as used in operator diagnostics.
pub open spec fn spec_type_name(v: ValueModel) -> Seq<char> {
    match v {
        ValueModel::Str(_) => "String"@,
        ValueModel::Num(_) => "Number"@,
        ValueModel::Bool(_) => "Bool"@,
        ValueModel::Nil => "Nil"@,
    }
}

/// The diagnostic for a binary operator applied to a pair of value shapes it
/// does not support.
pub open spec fn spec_bin_unsupported_msg(
    ctx: CtxModel,
    sym: Seq<char>,
    l: ValueModel,
    r: ValueModel,
) -> Seq<char> {
    spec_error_msg(
        ctx,
        "Operator '"@ + sym + "' is not supported for "@ + spec_display(l) + " of type "@
            + spec_type_name(l) + " and "@ + spec_display(r) + " of type "@ + spec_type_name(r),
    )
}

/// The diagnostic for the unary operator `-` applied to a value that is not a
/// number.
pub open spec fn spec_unary_unsupported_msg(ctx: CtxModel, v: ValueModel) -> Seq<char> {
    spec_error_msg(
        ctx,
        "Operator '-' is not supported for "@ + spec_display(v) + " of type "@ + spec_type_name(v),
    )
}

/// The diagnostic for division by zero.
pub open spec fn spec_div_zero_msg(ctx: CtxModel, a: u64, b: u64) -> Seq<char> {
    spec_error_msg(ctx, "Division by zero: "@ + spec_num_format(a) + "/"@ + spec_num_format(b))
}

/// The name of a token category's variant, as used in the diagnostics for
/// tokens that are no operator at all.
pub open spec fn spec_op_name(op: TokenTypeModel) -> Seq<char> {
    match op {
        TokenTypeModel::LeftParen => "LeftParen"@,
        TokenTypeModel::RightParen => "RightParen"@,
        TokenTypeModel::LeftBrace => "LeftBrace"@,
        TokenTypeModel::RightBrace => "RightBrace"@,
        TokenTypeModel::Comma => "Comma"@,
        TokenTypeModel::Dot => "Dot"@,
        TokenTypeModel::Minus => "Minus"@,
        TokenTypeModel::Plus => "Plus"@,
        TokenTypeModel::Semicolon => "Semicolon"@,
        TokenTypeModel::Slash => "Slash"@,
        TokenTypeModel::Star => "Star"@,
        TokenTypeModel::Bang => "Bang"@,
        TokenTypeModel::BangEqual => "BangEqual"@,
        TokenTypeModel::Equal => "Equal"@,
        TokenTypeModel::EqualEqual => "EqualEqual"@,
        TokenTypeModel::Greater => "Greater"@,
        TokenTypeModel::GreaterEqual => "GreaterEqual"@,
        TokenTypeModel::Less => "Less"@,
        TokenTypeModel::LessEqual => "LessEqual"@,
        TokenTypeModel::Identifier => "Identifier"@,
        TokenTypeModel::Str(_) => "Str"@,
        TokenTypeModel::Number(_) => "Number"@,
        TokenTypeModel::And => "And"@,
        TokenTypeModel::Class => "Class"@,
        TokenTypeModel::Else => "Else"@,
        TokenTypeModel::False => "False"@,
        TokenTypeModel::Fun => "Fun"@,
        TokenTypeModel::For => "For"@,
        TokenTypeModel::If => "If"@,
        TokenTypeModel::Nil => "Nil"@,
        TokenTypeModel::Mut => "Mut"@,
        TokenTypeModel::Or => "Or"@,
        TokenTypeModel::PrintLn => "PrintLn"@,
        TokenTypeModel::Return => "Return"@,
        TokenTypeModel::Super => "Super"@,
        TokenTypeModel::This => "This"@,
        TokenTypeModel::True => "True"@,
        TokenTypeModel::Let => "Let"@,
        TokenTypeModel::Const => "Const"@,
        TokenTypeModel::While => "While"@,
        TokenTypeModel::Eof => "Eof"@,
    }
}

/// What a binary operator yields on a pair of values, per the operator
/// semantics table: arithmetic and ordering on numbers, `+` also as string
/// concatenation, equality on every pair of shapes, division by zero a
/// runtime error, and every other combination an unsupported-operator error.
pub open spec fn spec_apply_binary(
    l: ValueModel,
    ctx: CtxModel,
    op: TokenTypeModel,
    r: ValueModel,
) -> Result<ValueModel, ErrorModel> {
    match op {
        TokenTypeModel::EqualEqual => Ok(ValueModel::Bool(spec_value_eq(l, r))),
        TokenTypeModel::BangEqual => Ok(ValueModel::Bool(!spec_value_eq(l, r))),
        TokenTypeModel::Greater => match (l, r) {
            (ValueModel::Num(a), ValueModel::Num(b)) => Ok(ValueModel::Bool(spec_num_gt(a, b))),
            _ => Err(ErrorModel::UnsupportedOperator(spec_bin_unsupported_msg(ctx, ">"@, l, r))),
        },
        TokenTypeModel::GreaterEqual => match (l, r) {
            (ValueModel::Num(a), ValueModel::Num(b)) => Ok(ValueModel::Bool(spec_num_ge(a, b))),
            _ => Err(ErrorModel::UnsupportedOperator(spec_bin_unsupported_msg(ctx, ">="@, l, r))),
        },
        TokenTypeModel::Less => match (l, r) {
            (ValueModel::Num(a), ValueModel::Num(b)) => Ok(ValueModel::Bool(spec_num_lt(a, b))),
            _ => Err(ErrorModel::UnsupportedOperator(spec_bin_unsupported_msg(ctx, "<"@, l, r))),
        },
        TokenTypeModel::LessEqual => match (l, r) {
            (ValueModel::Num(a), ValueModel::Num(b)) => Ok(ValueModel::Bool(spec_num_le(a, b))),
            _ => Err(ErrorModel::UnsupportedOperator(spec_bin_unsupported_msg(ctx, "<="@, l, r))),
        },
        TokenTypeModel::Plus => match (l, r) {
            (ValueModel::Num(a), ValueModel::Num(b)) => Ok(ValueModel::Num(spec_num_add(a, b))),
            (ValueModel::Str(a), ValueModel::Str(b)) => Ok(ValueModel::Str(a + b)),
            _ => Err(ErrorModel::UnsupportedOperator(spec_bin_unsupported_msg(ctx, "+"@, l, r))),
        },
        TokenTypeModel::Minus => match (l, r) {
            (ValueModel::Num(a), ValueModel::Num(b)) => Ok(ValueModel::Num(spec_num_sub(a, b))),
            _ => Err(ErrorModel::UnsupportedOperator(spec_bin_unsupported_msg(ctx, "-"@, l, r))),
        },
        TokenTypeModel::Star => match (l, r) {
            (ValueModel::Num(a), ValueModel::Num(b)) => Ok(ValueModel::Num(spec_num_mul(a, b))),
            _ => Err(ErrorModel::UnsupportedOperator(spec_bin_unsupported_msg(ctx, "*"@, l, r))),
        },
        TokenTypeModel::Slash => match (l, r) {
            (ValueModel::Num(a), ValueModel::Num(b)) => if spec_num_eq(b, 0) {
                Err(ErrorModel::RuntimeError(spec_div_zero_msg(ctx, a, b)))
            } else {
                Ok(ValueModel::Num(spec_num_div(a, b)))
            },
            _ => Err(ErrorModel::UnsupportedOperator(spec_bin_unsupported_msg(ctx, "/"@, l, r))),
        },
        _ => Err(
            ErrorModel::UnsupportedOperator(
                spec_error_msg(ctx, spec_op_name(op) + " is not supported"@),
            ),
        ),
    }
}

/// What a unary operator yields on a value: only `-` on a number is
/// supported.
pub open spec fn spec_apply_unary(v: ValueModel, ctx: CtxModel, op: TokenTypeModel) -> Result<
    ValueModel,
    ErrorModel,
> {
    match op {
        TokenTypeModel::Minus => match v {
            ValueModel::Num(n) => Ok(ValueModel::Num(spec_num_neg(n))),
            _ => Err(ErrorModel::UnsupportedOperator(spec_unary_unsupported_msg(ctx, v))),
        },
        _ => Err(
            ErrorModel::UnsupportedOperator(
                spec_error_msg(ctx, "Unsupported operator "@ + spec_op_name(op)),
            ),
        ),
    }
}

impl UvlValue {
    /// An exact copy of this value.
    pub fn dup(&self) -> (r: UvlValue)
        ensures
            r == *self,
    {
        match self {
            UvlValue::Str(s) => UvlValue::Str(s.clone()),
            UvlValue::Num(n) => UvlValue::Num(*n),
            UvlValue::Bool(b) => UvlValue::Bool(*b),
            UvlValue::Nil => UvlValue::Nil,
        }
    }

    /// The display rendering of this value.
    pub fn display_string(&self) -> (r: String)
        ensures
            r@ == spec_display(self@),
    {
        match self {
            UvlValue::Str(s) => {
                let mut m = String::from_str("\"");
                m.append(s.as_str());
                m.append("\"");
                assert(m@ =~= spec_display(self@));
                m
            },
            UvlValue::Num(n) => num_format(*n),
            UvlValue::Bool(b) => {
                if *b {
                    String::from_str("true")
                } else {
                    String::from_str("false")
                }
            },
            UvlValue::Nil => String::from_str("()"),
        }
    }

    /// The name of this value's variant.
    pub fn type_str(&self) -> (r: &'static str)
        ensures
            r@ == spec_type_name(self@),
    {
        match self {
            UvlValue::Str(_) => "String",
            UvlValue::Num(_) => "Number",
            UvlValue::Bool(_) => "Bool",
            UvlValue::Nil => "Nil",
        }
    }

    /// Structural equality with another value.
    fn value_eq(&self, rhs: &UvlValue) -> (r: bool)
        ensures
            r == spec_value_eq(self@, rhs@),
    {
        match (self, rhs) {
            (UvlValue::Str(a), UvlValue::Str(b)) => a.eq(b),
            (UvlValue::Num(a), UvlValue::Num(b)) => num_eq(*a, *b),
            (UvlValue::Bool(a), UvlValue::Bool(b)) => a == b,
            (UvlValue::Nil, UvlValue::Nil) => true,
            _ => false,
        }
    }

    /// The unsupported-operator error for a binary operator symbol on this
    /// pair of values.
    fn bin_unsupported(&self, ctx: &Ctx, sym: &str, rhs: &UvlValue) -> (e: UvlError)
        ensures
            e@ == ErrorModel::UnsupportedOperator(
                spec_bin_unsupported_msg(ctx@, sym@, self@, rhs@),
            ),
    {
        let mut m = String::from_str("Operator '");
        m.append(sym);
        m.append("' is not supported for ");
        let ld = self.display_string();
        m.append(ld.as_str());
        m.append(" of type ");
        m.append(self.type_str());
        m.append(" and ");
        let rd = rhs.display_string();
        m.append(rd.as_str());
        m.append(" of type ");
        m.append(rhs.type_str());
        assert(m@ =~= "Operator '"@ + sym@ + "' is not supported for "@ + spec_display(self@)
            + " of type "@ + spec_type_name(self@) + " and "@ + spec_display(rhs@) + " of type "@
            + spec_type_name(rhs@));
        UvlError::UnsupportedOperator(make_error_msg(ctx, m))
    }

    fn add(&self, ctx: &Ctx, rhs: &UvlValue) -> (r: Result<UvlValue, UvlError>)
        ensures
            res_view(r) == spec_apply_binary(self@, ctx@, TokenTypeModel::Plus, rhs@),
    {
        match (self, rhs) {
            (UvlValue::Num(a), UvlValue::Num(b)) => Ok(UvlValue::Num(num_add(*a, *b))),
            (UvlValue::Str(a), UvlValue::Str(b)) => {
                let mut s = a.clone();
                s.append(b.as_str());
                Ok(UvlValue::Str(s))
            },
            _ => Err(self.bin_unsupported(ctx, "+", rhs)),
        }
    }

    fn minus(&self, ctx: &Ctx, rhs: &UvlValue) -> (r: Result<UvlValue, UvlError>)
        ensures
            res_view(r) == spec_apply_binary(self@, ctx@, TokenTypeModel::Minus, rhs@),
    {
        match (self, rhs) {
            (UvlValue::Num(a), UvlValue::Num(b)) => Ok(UvlValue::Num(num_sub(*a, *b))),
            _ => Err(self.bin_unsupported(ctx, "-", rhs)),
        }
    }

    fn multi(&self, ctx: &Ctx, rhs: &UvlValue) -> (r: Result<UvlValue, UvlError>)
        ensures
            res_view(r) == spec_apply_binary(self@, ctx@, TokenTypeModel::Star, rhs@),
    {
        match (self, rhs) {
            (UvlValue::Num(a), UvlValue::Num(b)) => Ok(UvlValue::Num(num_mul(*a, *b))),
            _ => Err(self.bin_unsupported(ctx, "*", rhs)),
        }
    }

    fn divide(&self, ctx: &Ctx, rhs: &UvlValue) -> (r: Result<UvlValue, UvlError>)
        ensures
            res_view(r) == spec_apply_binary(self@, ctx@, TokenTypeModel::Slash, rhs@),
    {
        match (self, rhs) {
            (UvlValue::Num(a), UvlValue::Num(b)) => {
                if num_eq(*b, 0) {
                    let mut m = String::from_str("Division by zero: ");
                    let la = num_format(*a);
                    m.append(la.as_str());
                    m.append("/");
                    let lb = num_format(*b);
                    m.append(lb.as_str());
                    assert(m@ =~= "Division by zero: "@ + spec_num_format(*a) + "/"@
                        + spec_num_format(*b));
                    Err(UvlError::RuntimeError(make_error_msg(ctx, m)))
                } else {
                    Ok(UvlValue::Num(num_div(*a, *b)))
                }
            },
            _ => Err(self.bin_unsupported(ctx, "/", rhs)),
        }
    }

    fn gt(&self, ctx: &Ctx, rhs: &UvlValue) -> (r: Result<UvlValue, UvlError>)
        ensures
            res_view(r) == spec_apply_binary(self@, ctx@, TokenTypeModel::Greater, rhs@),
    {
        match (self, rhs) {
            (UvlValue::Num(a), UvlValue::Num(b)) => Ok(UvlValue::Bool(num_gt(*a, *b))),
            _ => Err(self.bin_unsupported(ctx, ">", rhs)),
        }
    }

    fn ge(&self, ctx: &Ctx, rhs: &UvlValue) -> (r: Result<UvlValue, UvlError>)
        ensures
            res_view(r) == spec_apply_binary(self@, ctx@, TokenTypeModel::GreaterEqual, rhs@),
    {
        match (self, rhs) {
            (UvlValue::Num(a), UvlValue::Num(b)) => Ok(UvlValue::Bool(num_ge(*a, *b))),
            _ => Err(self.bin_unsupported(ctx, ">=", rhs)),
        }
    }

    fn lt(&self, ctx: &Ctx, rhs: &UvlValue) -> (r: Result<UvlValue, UvlError>)
        ensures
            res_view(r) == spec_apply_binary(self@, ctx@, TokenTypeModel::Less, rhs@),
    {
        match (self, rhs) {
            (UvlValue::Num(a), UvlValue::Num(b)) => Ok(UvlValue::Bool(num_lt(*a, *b))),
            _ => Err(self.bin_unsupported(ctx, "<", rhs)),
        }
    }

    fn le(&self, ctx: &Ctx, rhs: &UvlValue) -> (r: Result<UvlValue, UvlError>)
        ensures
            res_view(r) == spec_apply_binary(self@, ctx@, TokenTypeModel::LessEqual, rhs@),
    {
        match (self, rhs) {
            (UvlValue::Num(a), UvlValue::Num(b)) => Ok(UvlValue::Bool(num_le(*a, *b))),
            _ => Err(self.bin_unsupported(ctx, "<=", rhs)),
        }
    }

    /// The name of a token category's variant, for diagnostics.
    fn op_name(op: &TokenType) -> (r: &'static str)
        ensures
            r@ == spec_op_name(op@),
    {
        match op {
            TokenType::LeftParen => "LeftParen",
            TokenType::RightParen => "RightParen",
            TokenType::LeftBrace => "LeftBrace",
            TokenType::RightBrace => "RightBrace",
            TokenType::Comma => "Comma",
            TokenType::Dot => "Dot",
            TokenType::Minus => "Minus",
            TokenType::Plus => "Plus",
            TokenType::Semicolon => "Semicolon",
            TokenType::Slash => "Slash",
            TokenType::Star => "Star",
            TokenType::Bang => "Bang",
            TokenType::BangEqual => "BangEqual",
            TokenType::Equal => "Equal",
            TokenType::EqualEqual => "EqualEqual",
            TokenType::Greater => "Greater",
            TokenType::GreaterEqual => "GreaterEqual",
            TokenType::Less => "Less",
            TokenType::LessEqual => "LessEqual",
            TokenType::Identifier => "Identifier",
            TokenType::Str(_) => "Str",
            TokenType::Number(_) => "Number",
            TokenType::And => "And",
            TokenType::Class => "Class",
            TokenType::Else => "Else",
            TokenType::False => "False",
            TokenType::Fun => "Fun",
            TokenType::For => "For",
            TokenType::If => "If",
            TokenType::Nil => "Nil",
            TokenType::Mut => "Mut",
            TokenType::Or => "Or",
            TokenType::PrintLn => "PrintLn",
            TokenType::Return => "Return",
            TokenType::Super => "Super",
            TokenType::This => "This",
            TokenType::True => "True",
            TokenType::Let => "Let",
            TokenType::Const => "Const",
            TokenType::While => "While",
            TokenType::Eof => "Eof",
        }
    }

    /// Applies a binary operator (with `rhs` present) or a unary operator
    /// (with `rhs` absent) to this value, per the operator semantics table.
    pub fn apply_operator(&self, ctx: &Ctx, op: &TokenType, rhs: Option<&UvlValue>) -> (r: Result<
        UvlValue,
        UvlError,
    >)
        ensures
            match rhs {
                Some(v) => res_view(r) == spec_apply_binary(self@, ctx@, op@, v@),
                None => res_view(r) == spec_apply_unary(self@, ctx@, op@),
            },
    {
        if let Some(rhs) = rhs {
            match op {
                TokenType::EqualEqual => Ok(UvlValue::Bool(self.value_eq(rhs))),
                TokenType::BangEqual => Ok(UvlValue::Bool(!self.value_eq(rhs))),
                TokenType::Greater => self.gt(ctx, rhs),
                TokenType::GreaterEqual => self.ge(ctx, rhs),
                TokenType::Less => self.lt(ctx, rhs),
                TokenType::LessEqual => self.le(ctx, rhs),
                TokenType::Plus => self.add(ctx, rhs),
                TokenType::Minus => self.minus(ctx, rhs),
                TokenType::Star => self.multi(ctx, rhs),
                TokenType::Slash => self.divide(ctx, rhs),
                _ => {
                    let mut m = String::new();
                    m.append(UvlValue::op_name(op));
                    m.append(" is not supported");
                    assert(m@ =~= spec_op_name(op@) + " is not supported"@);
                    Err(UvlError::UnsupportedOperator(make_error_msg(ctx, m)))
                },
            }
        } else {
            match op {
                TokenType::Minus => {
                    if let UvlValue::Num(n) = self {
                        Ok(UvlValue::Num(num_neg(*n)))
                    } else {
                        let mut m = String::from_str("Operator '-' is not supported for ");
                        let d = self.display_string();
                        m.append(d.as_str());
                        m.append(" of type ");
                        m.append(self.type_str());
                        assert(m@ =~= "Operator '-' is not supported for "@ + spec_display(self@)
                            + " of type "@ + spec_type_name(self@));
                        Err(UvlError::UnsupportedOperator(make_error_msg(ctx, m)))
                    }
                },
                _ => {
                    let mut m = String::from_str("Unsupported operator ");
                    m.append(UvlValue::op_name(op));
                    assert(m@ =~= "Unsupported operator "@ + spec_op_name(op@));
                    Err(UvlError::UnsupportedOperator(make_error_msg(ctx, m)))
                },
            }
        }
    }
}

} // verus!
