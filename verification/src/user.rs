use crate::decimal::spec_i32_string;
use vstd::prelude::*;
use vstd::string::StringExecFns;

verus! {

/// A record with a text name and an integer age. Equality is structural:
/// two values compare equal exactly when both fields agree.
#[derive(Debug)]
pub struct User {
    pub name: String,
    pub age: i32,
}

/// What `==` means on `User`: both fields equal, the name compared by its
/// character content.
pub open spec fn user_eq(a: &User, b: &User) -> bool {
    a.name@ == b.name@ && a.age == b.age
}

impl PartialEq for User {
    fn eq(&self, other: &User) -> (r: bool) {
        self.name == other.name && self.age == other.age
    }
}

impl vstd::std_specs::cmp::PartialEqSpecImpl for User {
    open spec fn obeys_eq_spec() -> bool {
        true
    }

    open spec fn eq_spec(&self, other: &User) -> bool {
        user_eq(self, other)
    }
}

impl User {
    /// Builds the record from its two fields; total, never fails.
    pub fn new(name: String, age: i32) -> (u: User)
        ensures
            u.name@ == name@,
            u.age == age,
    {
        User { name, age }
    }

    /// The user's one-line description: the name, the age in decimal, and a
    /// closing word, laid out as the greeting the record introduces itself
    /// with.
    pub fn describe(&self, word: &str) -> (r: String)
        ensures
            r@ == "I'm "@ + self.name@ + ", "@ + spec_i32_string(self.age as int) + " old. "@
                + word@ + "!"@,
    {
        let mut s = String::from_str("I'm ");
        s.append(self.name.as_str());
        s.append(", ");
        let age = crate::decimal::i32_to_string(self.age);
        s.append(age.as_str());
        s.append(" old. ");
        s.append(word);
        s.append("!");
        proof {
            assert(s@ =~= "I'm "@ + self.name@ + ", "@ + spec_i32_string(self.age as int)
                + " old. "@ + word@ + "!"@);
        }
        s
    }

    /// Functional update: a copy of `self` whose name is replaced and whose
    /// other field is taken from `self`.
    pub fn with_name(&self, name: String) -> (u: User)
        ensures
            u.name@ == name@,
            u.age == self.age,
    {
        User { name, age: self.age }
    }

    /// Functional update: a copy of `self` whose age is replaced and whose
    /// other field is taken from `self`.
    pub fn with_age(&self, age: i32) -> (u: User)
        ensures
            u.name@ == self.name@,
            u.age == age,
    {
        User { name: self.name.clone(), age }
    }
}

/// Structural equality on records: two `User`s compare equal exactly when
/// name and age both agree, and differ as soon as either field differs.
pub proof fn lemma_user_equality(a: &User, b: &User)
    ensures
        vstd::std_specs::cmp::PartialEqSpec::eq_spec(a, b) <==> (a.name@ == b.name@ && a.age
            == b.age),
{
}

} // verus!
