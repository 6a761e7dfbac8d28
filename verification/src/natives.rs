//! Registration of the built-in native functions into a scope.

use vstd::prelude::*;

verus! {

use crate::scope::Scope;
use crate::value::{Value, Object, Native, AbsValue, AbsObject};
use vstd::string::StringExecFns;

/// Registers the built-in natives — `putsln`, `puts` and `angry` — into the
/// given scope, in that order.
pub fn apply(scope: &mut Scope)
    ensures
        final(scope)@ == old(scope)@.insert(
            "putsln"@,
            AbsValue::Obj(AbsObject::Native(Native::Putsln)),
        ).insert("puts"@, AbsValue::Obj(AbsObject::Native(Native::Puts))).insert(
            "angry"@,
            AbsValue::Obj(AbsObject::Native(Native::Angry)),
        ),
{
    scope.insert(String::from_str("putsln"), Value::Object(Object::Native(Native::Putsln)));
    scope.insert(String::from_str("puts"), Value::Object(Object::Native(Native::Puts)));
    scope.insert(String::from_str("angry"), Value::Object(Object::Native(Native::Angry)));
}

} // verus!
