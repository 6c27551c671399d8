//! The checks that the commands of the duty list make on what a user enters.
use vstd::prelude::*;
use crate::models::Personnel;
use crate::text::{
    contains_char, is_white_space, lemma_trimmed_drops_only_outer_white_space, trim, trimmed,
};

verus! {

/// The error of a person's name and e-mail address as entered, if any: `邮箱格式不正确`
/// where the address lacks an `@` or a `.`, else `姓名不能为空` where the name is blank.
pub open spec fn personnel_input_error(name: Seq<char>, email: Seq<char>) -> Option<Seq<char>> {
    if !email.contains('@') || !email.contains('.') {
        Some("邮箱格式不正确"@)
    } else if trimmed(name).len() == 0 {
        Some("姓名不能为空"@)
    } else {
        None
    }
}

/// Checks a person's name and e-mail address as entered.
pub fn check_personnel_input(name: &str, email: &str) -> (r: Result<(), String>)
    ensures
        r is Ok <==> personnel_input_error(name@, email@) is None,
        r matches Err(e) ==> personnel_input_error(name@, email@) == Some(e@),
{
    if !contains_char(email, '@') || !contains_char(email, '.') {
        return Err("邮箱格式不正确".to_owned());
    }
    let t = trim(name);
    if t.as_str().is_empty() {
        return Err("姓名不能为空".to_owned());
    }
    Ok(())
}

/// The name and e-mail address of a person to add, each without its leading and trailing
/// white space, once the input has passed the check.
pub fn new_personnel_fields(name: &str, email: &str) -> (r: Result<(String, String), String>)
    ensures
        r is Ok <==> personnel_input_error(name@, email@) is None,
        r matches Ok(f) ==> f.0@ == trimmed(name@) && f.1@ == trimmed(email@),
        r matches Err(e) ==> personnel_input_error(name@, email@) == Some(e@),
{
    match check_personnel_input(name, email) {
        Ok(()) => Ok((trim(name), trim(email))),
        Err(e) => Err(e),
    }
}

/// Checks a person's record before it is updated.
pub fn check_personnel_update(p: &Personnel) -> (r: Result<(), String>)
    ensures
        r is Ok <==> personnel_input_error(p.name@, p.email@) is None,
        r matches Err(e) ==> personnel_input_error(p.name@, p.email@) == Some(e@),
{
    check_personnel_input(p.name.as_str(), p.email.as_str())
}


/// An address is refused only when it lacks an `@` or a `.`, wherever they stand, and a
/// name only when it is blank (nothing but white space): an address holding both with a
/// name that is not blank passes, and each error comes exactly where the checks put it.
pub proof fn lemma_what_the_input_check_refuses(name: Seq<char>, email: Seq<char>)
    ensures
        (exists|i: int, j: int| 0 <= i < email.len() && 0 <= j < email.len() && email[i] == '@'
            && email[j] == '.') && (exists|k: int| 0 <= k < name.len() && !is_white_space(name[k]))
            ==> personnel_input_error(name, email) is None,
        (forall|i: int| 0 <= i < email.len() ==> email[i] != '@') ==> personnel_input_error(
            name,
            email,
        ) == Some("邮箱格式不正确"@),
        (forall|i: int| 0 <= i < email.len() ==> email[i] != '.') ==> personnel_input_error(
            name,
            email,
        ) == Some("邮箱格式不正确"@),
        email.contains('@') && email.contains('.') && (forall|k: int|
            0 <= k < name.len() ==> is_white_space(#[trigger] name[k])) ==> personnel_input_error(
            name,
            email,
        ) == Some("姓名不能为空"@),
{
    lemma_trimmed_drops_only_outer_white_space(name);
    if exists|i: int, j: int| 0 <= i < email.len() && 0 <= j < email.len() && email[i] == '@'
        && email[j] == '.' {
        let (i, j) = choose|i: int, j: int| 0 <= i < email.len() && 0 <= j < email.len()
            && email[i] == '@' && email[j] == '.';
        assert(email.contains('@'));
        assert(email.contains('.'));
    }
    if exists|k: int| 0 <= k < name.len() && !is_white_space(name[k]) {
        let k = choose|k: int| 0 <= k < name.len() && !is_white_space(name[k]);
        assert(!is_white_space(name[k]));
    }
}

/// The new positions of a reordered duty list: the person at index `i` of `ids` gets the
/// position `i` (as an `i32`), in the order of `ids`.
pub fn sort_order_updates(ids: &Vec<i64>) -> (r: Vec<(i32, i64)>)
    ensures
        r@.len() == ids@.len(),
        forall|i: int| 0 <= i < ids@.len() ==> #[trigger] r@[i] == (i as i32, ids@[i]),
{
    let mut r: Vec<(i32, i64)> = Vec::new();
    for i in 0..ids.len()
        invariant
            r@.len() == i,
            forall|j: int| 0 <= j < i ==> #[trigger] r@[j] == (j as i32, ids@[j]),
    {
        r.push((i as i32, ids[i]));
    }
    r
}

} // verus!
