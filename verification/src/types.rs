//! The shapes of the requests that the service accepts.

use vstd::prelude::*;
use vstd::string::StringExecFns;

verus! {

/// Query parameters accepted on the list routes.
#[derive(Debug)]
pub struct ListParams {
    pub foo: Option<i32>,
    pub bar: Option<String>,
}

/// The body of a request that creates a list.
#[derive(Debug)]
pub struct ListNew {
    pub name: Option<String>,
}

/// The body of a request that renames a list.
#[derive(Debug)]
#[allow(non_snake_case)]
pub struct ListExisting {
    pub name: Option<String>,
    pub _id: Option<String>,
    pub createdDate: Option<String>,
    pub updatedDate: Option<String>,
}

/// The progress of an item.
#[derive(Debug, Clone, Copy, PartialEq, Eq, Structural)]
pub enum ItemState {
    Todo,
    InProgress,
    Done,
}

impl ItemState {
    /// The name under which a state is stored.
    pub open spec fn stored_name(self) -> Seq<char> {
        match self {
            ItemState::Todo => "todo"@,
            ItemState::InProgress => "inprogress"@,
            ItemState::Done => "done"@,
        }
    }

    /// The name under which the state is stored: `todo`, `inprogress` or
    /// `done`.
    pub fn to_string(&self) -> (s: String)
        ensures
            s@ == self.stored_name(),
    {
        match self {
            ItemState::Todo => String::from_str("todo"),
            ItemState::InProgress => String::from_str("inprogress"),
            ItemState::Done => String::from_str("done"),
        }
    }
}

/// Distinct states are stored under distinct names, none of them empty.
pub proof fn lemma_stored_names_distinct(a: ItemState, b: ItemState)
    ensures
        a.stored_name() == b.stored_name() <==> a == b,
        a.stored_name().len() > 0,
{
    reveal_strlit("todo");
    reveal_strlit("inprogress");
    reveal_strlit("done");
    if a != b {
        match (a, b) {
            (ItemState::Todo, ItemState::InProgress) | (ItemState::InProgress, ItemState::Todo) => {
                assert(a.stored_name().len() != b.stored_name().len());
            },
            (ItemState::InProgress, ItemState::Done) | (ItemState::Done, ItemState::InProgress) => {
                assert(a.stored_name().len() != b.stored_name().len());
            },
            _ => {
                assert(a.stored_name()[0] != b.stored_name()[0]);
            },
        }
    }
}

/// Route parameters that name an item of a list.
#[derive(Debug)]
#[allow(non_snake_case)]
pub struct ListItemParams {
    pub listId: Option<String>,
    pub itemId: Option<String>,
    pub state: ItemState,
}

/// Search and paging parameters of the item listing of a list.
#[derive(Debug)]
pub struct ItemsParams {
    pub query: Option<String>,
    pub skip: Option<u64>,
    pub top: Option<i64>,
}

/// The body of a request that creates an item.
#[derive(Debug)]
pub struct ItemNew {
    pub name: Option<String>,
    pub state: Option<ItemState>,
    pub description: Option<String>,
    pub due_date: Option<String>,
    pub completed_date: Option<String>,
}

/// The body of a request that replaces an item, or names one item of a batch.
#[derive(Debug)]
pub struct ItemExisting {
    pub id: Option<String>,
    pub name: Option<String>,
    pub state: Option<ItemState>,
    pub description: Option<String>,
    pub due_date: Option<String>,
    pub completed_date: Option<String>,
    pub created_date: Option<String>,
    pub updated_date: Option<String>,
}

/// Search and paging parameters of the item listing by state.
#[derive(Debug)]
pub struct StateParams {
    pub query: Option<String>,
    pub skip: Option<u64>,
    pub top: Option<i64>,
}

} // verus!
