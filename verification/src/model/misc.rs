//! Values shared by several definitions.

use vstd::prelude::*;

verus! {

/// The application that owns an event type.
#[derive(Debug, PartialEq, Eq, Hash)]
pub struct OwningApplication(pub String);

impl OwningApplication {
    /// The owning application with the given name.
    pub fn new(name: String) -> (a: OwningApplication)
        ensures
            a.0 == name,
    {
        OwningApplication(name)
    }
}

/// One subject that an authorization names: the kind of subject, such as a
/// user or a service, and which one of that kind.
#[derive(Debug, PartialEq, Eq, Hash)]
pub struct AuthorizationAttribute {
    pub data_type: String,
    pub value: String,
}

impl AuthorizationAttribute {
    /// The attribute for the subject `value` of the kind `data_type`.
    pub fn new(data_type: String, value: String) -> (a: AuthorizationAttribute)
        ensures
            a.data_type == data_type,
            a.value == value,
    {
        AuthorizationAttribute { data_type, value }
    }
}

impl Clone for OwningApplication {
    fn clone(&self) -> (a: OwningApplication)
        ensures
            a == *self,
    {
        OwningApplication(self.0.clone())
    }
}

impl Clone for AuthorizationAttribute {
    fn clone(&self) -> (a: AuthorizationAttribute)
        ensures
            a == *self,
    {
        AuthorizationAttribute { data_type: self.data_type.clone(), value: self.value.clone() }
    }
}

} // verus!
