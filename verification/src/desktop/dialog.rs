//! The windows that ask: whether something is to be done, or for what is to be saved.
use vstd::prelude::*;

verus! {

/// What is written on the button that gives up.
pub const CANCEL_TEXT: &'static str = "取消";

/// What a form is for: something new, or what stands under a name.
#[derive(Debug, PartialEq, Eq)]
pub enum FormTarget {
    New,
    Edit(String),
}

impl Clone for FormTarget {
    fn clone(&self) -> (r: Self)
        ensures
            r == *self,
    {
        match self {
            FormTarget::New => FormTarget::New,
            FormTarget::Edit(name) => FormTarget::Edit(name.clone()),
        }
    }
}

/// A question whether something is to be done.
#[derive(Debug, PartialEq)]
pub struct Question {
    pub title: String,
    pub description: String,
    pub ok_text: &'static str,
    /// It cannot be undone.
    pub danger: bool,
}

/// A question with a name between two texts.
pub fn confirm(
    title: &str,
    before: &str,
    name: &str,
    behind: &str,
    ok_text: &'static str,
    danger: bool,
) -> (r: Question)
    ensures
        r.title@ == title@,
        r.description@ == before@ + name@ + behind@,
        r.ok_text@ == ok_text@,
        r.danger == danger,
{
    let mut description: String = before.to_owned();
    description.append(name);
    description.append(behind);
    Question { title: title.to_owned(), description, ok_text, danger }
}

/// A field of a form: what is written over it, and what stands in it at first.
#[derive(Debug, PartialEq)]
pub struct Field {
    pub label: &'static str,
    pub value: String,
}

/// A form.
#[derive(Debug, PartialEq)]
pub struct Form {
    pub title: &'static str,
    pub fields: Vec<Field>,
}

} // verus!
