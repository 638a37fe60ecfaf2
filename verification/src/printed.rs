//! The property lines of fields and registers.
use vstd::prelude::*;
use crate::bridge::{field_prop_line, reg_prop_line, show_field_prop, show_reg_prop};
use crate::model::props::{FieldProp, RegProp};
use crate::model::register::{FieldDef, FieldDefView, RegisterDef, RegisterDefView};
use crate::model::values::{WriteLock, WriteLockView};
use crate::text::join;

verus! {

/// The line of a write lock; none where there is no lock, or one that only stays in the file.
pub open spec fn lock_line(l: WriteLockView) -> Option<Seq<char>> {
    match l {
        WriteLockView::Expr(t) => Some("lock "@ + t),
        _ => None,
    }
}

/// The line of a property of a field; `None` where the property needs no line.
pub open spec fn field_line(f: FieldDefView, p: FieldProp) -> Option<Seq<char>> {
    if p == FieldProp::Lock {
        lock_line(f.lock)
    } else {
        field_prop_line(f, p)
    }
}

/// The line of a property of a register; `None` where the property needs no line.
pub open spec fn reg_line(d: RegisterDefView, p: RegProp) -> Option<Seq<char>> {
    if p == RegProp::Lock {
        lock_line(d.lock)
    } else {
        reg_prop_line(d, p)
    }
}

/// Prints the line of a write lock.
pub fn show_lock_line(l: &WriteLock) -> (r: Option<String>)
    ensures
        r.deep_view() == lock_line(l@),
{
    match l {
        WriteLock::Expr(t) => Some(join("lock ", t.as_str())),
        WriteLock::Open => None,
        WriteLock::Complex => None,
    }
}

/// Prints the line of a property of a field.
pub fn show_field_line(f: &FieldDef, p: FieldProp) -> (r: Option<String>)
    ensures
        r.deep_view() == field_line(f@, p),
{
    if p == FieldProp::Lock {
        show_lock_line(&f.lock)
    } else {
        show_field_prop(f, p)
    }
}

/// Prints the line of a property of a register.
pub fn show_reg_line(d: &RegisterDef, p: RegProp) -> (r: Option<String>)
    ensures
        r.deep_view() == reg_line(d@, p),
{
    if p == RegProp::Lock {
        show_lock_line(&d.lock)
    } else {
        show_reg_prop(d, p)
    }
}

} // verus!
