use vstd::prelude::*;
use crate::value::{Outcome, TypeError, Value, text_of, type_label_of};

verus! {

/// `string.len`: the byte length of the first argument's text, nil standing
/// in for a missing argument. A float argument takes the float path; an
/// argument with no text is a type error.
pub fn string_len(args: &Vec<Value>) -> (r: Result<Outcome<i64>, TypeError>)
    ensures
        match text_of(if args@.len() > 0 { args@[0] } else { Value::Nil }) {
            Outcome::Done(t) => r == Ok::<Outcome<i64>, TypeError>(Outcome::Done(t.len() as i64)),
            Outcome::Float => r == Ok::<Outcome<i64>, TypeError>(Outcome::Float),
            Outcome::Fail => {
                &&& r is Err
                &&& r->Err_0.expected@ == "string"@
                &&& r->Err_0.found@ == type_label_of(if args@.len() > 0 { args@[0] } else { Value::Nil })
            },
        },
{
    if args.len() == 0 {
        return Err(TypeError { expected: "string", found: Value::Nil.type_label() });
    }
    match args[0].to_string() {
        Outcome::Done(t) => Ok(Outcome::Done(#[verifier::truncate] (t.len() as i64))),
        Outcome::Float => Ok(Outcome::Float),
        Outcome::Fail => Err(TypeError { expected: "string", found: args[0].type_label() }),
    }
}

} // verus!
