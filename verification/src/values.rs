//! Runtime values: the tagged results of evaluating an expression.
//!
//! A runtime value is one of Null, Number (64-bit signed integer) or
//! Boolean. Values are immutable and cheap to copy; the evaluator is the
//! only producer.

use vstd::prelude::*;

verus! {

/// The tag of a runtime value.
#[derive(Debug, Clone, Copy, PartialEq, Eq, Structural)]
pub enum ValueType {
    Null,
    Number,
    Boolean,
}

/// The payload of a null value: the one abstract value `Null`.
#[derive(Debug, Clone, Copy, PartialEq, Eq, Structural)]
pub enum Value {
    Null,
}

/// A boolean payload.
#[derive(Debug, Clone, Copy, PartialEq, Eq, Structural)]
pub enum Bool {
    True,
    False,
}

/// The null runtime value.
#[derive(Debug, Clone, Copy, PartialEq, Eq, Structural)]
pub struct NullVal {
    pub value_type: ValueType,
    pub value: Value,
}

/// A boolean runtime value.
#[derive(Debug, Clone, Copy, PartialEq, Eq, Structural)]
pub struct BooleanVal {
    pub value_type: ValueType,
    pub value: Bool,
}

/// A numeric runtime value holding a 64-bit signed integer.
#[derive(Debug, Clone, Copy, PartialEq, Eq, Structural)]
pub struct NumberVal {
    pub value_type: ValueType,
    pub value: i64,
}

/// A runtime value: the tagged union over the three value kinds.
#[derive(Debug, Clone, Copy, PartialEq, Eq, Structural)]
pub enum RuntimeVal {
    NullVal(NullVal),
    NumberVal(NumberVal),
    BooleanVal(BooleanVal),
}

impl RuntimeVal {
    /// The tag that corresponds to this value's variant.
    pub fn get_value_type(&self) -> (t: ValueType)
        ensures
            t == match *self {
                RuntimeVal::NullVal(_) => ValueType::Null,
                RuntimeVal::NumberVal(_) => ValueType::Number,
                RuntimeVal::BooleanVal(_) => ValueType::Boolean,
            },
    {
        match self {
            RuntimeVal::NullVal(_) => ValueType::Null,
            RuntimeVal::NumberVal(_) => ValueType::Number,
            RuntimeVal::BooleanVal(_) => ValueType::Boolean,
        }
    }

    /// The integer payload of a numeric value.
    pub fn get_number_value(&self) -> (n: i64)
        requires
            self is NumberVal,
        ensures
            n == self->NumberVal_0.value,
    {
        match self {
            RuntimeVal::NumberVal(number_val) => number_val.value,
            _ => unreached(),
        }
    }

    /// The payload of a null value.
    pub fn get_null_value(&self) -> (v: Value)
        requires
            self is NullVal,
        ensures
            v == self->NullVal_0.value,
    {
        match self {
            RuntimeVal::NullVal(null_val) => null_val.value,
            _ => unreached(),
        }
    }

    /// The payload of a boolean value.
    pub fn get_bool_val(&self) -> (b: Bool)
        requires
            self is BooleanVal,
        ensures
            b == self->BooleanVal_0.value,
    {
        match self {
            RuntimeVal::BooleanVal(bool_val) => bool_val.value,
            _ => unreached(),
        }
    }

    /// Repackages a numeric value as a bare `NumberVal`.
    pub fn to_number_val(&self) -> (n: NumberVal)
        requires
            self is NumberVal,
        ensures
            n == (NumberVal { value_type: ValueType::Number, value: self->NumberVal_0.value }),
    {
        NumberVal { value_type: ValueType::Number, value: self.get_number_value() }
    }

    /// Repackages a null value as a bare `NullVal`.
    pub fn to_null_val(&self) -> (n: NullVal)
        requires
            self is NullVal,
        ensures
            n == (NullVal { value_type: ValueType::Null, value: self->NullVal_0.value }),
    {
        NullVal { value_type: ValueType::Null, value: self.get_null_value() }
    }

    /// Repackages a boolean value as a bare `BooleanVal`.
    pub fn to_boolean_val(&self) -> (b: BooleanVal)
        requires
            self is BooleanVal,
        ensures
            b == (BooleanVal { value_type: ValueType::Boolean, value: self->BooleanVal_0.value }),
    {
        BooleanVal { value_type: ValueType::Boolean, value: self.get_bool_val() }
    }
}

impl NullVal {
    /// Wraps this null payload as a `RuntimeVal`.
    pub fn to_runtime_val(self) -> (r: RuntimeVal)
        ensures
            r == RuntimeVal::NullVal(self),
    {
        RuntimeVal::NullVal(self)
    }

    /// The canonical null value.
    pub fn make_null() -> (r: NullVal)
        ensures
            r == (NullVal { value_type: ValueType::Null, value: Value::Null }),
    {
        NullVal { value_type: ValueType::Null, value: Value::Null }
    }
}

impl BooleanVal {
    /// Wraps this boolean payload as a `RuntimeVal`.
    pub fn to_runtime_val(self) -> (r: RuntimeVal)
        ensures
            r == RuntimeVal::BooleanVal(self),
    {
        RuntimeVal::BooleanVal(self)
    }

    /// A boolean value with the given payload.
    pub fn make_bool(value: Bool) -> (r: BooleanVal)
        ensures
            r == (BooleanVal { value_type: ValueType::Boolean, value }),
    {
        BooleanVal { value_type: ValueType::Boolean, value }
    }
}

impl NumberVal {
    /// Wraps this numeric payload as a `RuntimeVal`.
    pub fn to_runtime_val(self) -> (r: RuntimeVal)
        ensures
            r == RuntimeVal::NumberVal(self),
    {
        RuntimeVal::NumberVal(self)
    }

    /// A numeric value with the given payload.
    pub fn make_number(value: i64) -> (r: NumberVal)
        ensures
            r == (NumberVal { value_type: ValueType::Number, value }),
    {
        NumberVal { value_type: ValueType::Number, value }
    }
}

/// The null runtime value, the default result where no other value is
/// produced.
pub open spec fn null_value() -> RuntimeVal {
    RuntimeVal::NullVal(NullVal { value_type: ValueType::Null, value: Value::Null })
}

/// A numeric runtime value with the given payload.
pub open spec fn number_value(n: i64) -> RuntimeVal {
    RuntimeVal::NumberVal(NumberVal { value_type: ValueType::Number, value: n })
}

/// A boolean runtime value with the given payload.
pub open spec fn boolean_value(b: Bool) -> RuntimeVal {
    RuntimeVal::BooleanVal(BooleanVal { value_type: ValueType::Boolean, value: b })
}

} // verus!
