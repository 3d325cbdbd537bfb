use vstd::prelude::*;

verus! {

/// One to-do item.
#[derive(Debug, Clone, PartialEq, Eq)]
pub struct Todo {
    pub id: u32,
    pub title: String,
    pub is_completed: bool,
}

/// The mathematical value of a [`Todo`].
pub struct TodoSpec {
    pub id: u32,
    pub title: Seq<char>,
    pub is_completed: bool,
}

impl View for Todo {
    type V = TodoSpec;

    open spec fn view(&self) -> TodoSpec {
        TodoSpec { id: self.id, title: self.title@, is_completed: self.is_completed }
    }
}

/// The value of a list of tasks.
pub open spec fn todos_view(v: Seq<Todo>) -> Seq<TodoSpec> {
    v.map_values(|t: Todo| t@)
}

} // verus!
