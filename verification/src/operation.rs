//! Which operation a request asks for.
//!
//! A request is a method and a path.  A path of exactly one segment names a
//! file, and the method says what to do with it.  Everything else is answered
//! as unmatched.  The choice is made once, here; what follows works on the
//! chosen [`Operation`] and never looks at the method again.

use vstd::prelude::*;

verus! {

/// The method of a request.
#[derive(Clone, Copy, Debug, PartialEq, Eq, Structural)]
pub enum Method {
    Delete,
    Get,
    Put,
    Post,
    /// Any other method.
    Other,
}

/// One of the operations of the store, with what it needs.
#[derive(Debug, PartialEq, Eq)]
pub enum Operation {
    /// Remove the file `name`.
    Delete { name: String },
    /// Read the file `name`.
    Retrieve { name: String },
    /// Create the file `name`, or replace what it holds, with `content`.
    StoreAt { name: String, content: Vec<u8> },
    /// Create a file that does not exist yet, under a name generated from
    /// `prefix`, with `content`.
    StoreGenerated { prefix: String, content: Vec<u8> },
    /// The request asks for none of the above.
    Unmatched,
}

/// An operation as specifications see it.
pub enum OperationView {
    Delete { name: Seq<char> },
    Retrieve { name: Seq<char> },
    StoreAt { name: Seq<char>, content: Seq<u8> },
    StoreGenerated { prefix: Seq<char>, content: Seq<u8> },
    Unmatched,
}

impl View for Operation {
    type V = OperationView;

    open spec fn view(&self) -> OperationView {
        match self {
            Operation::Delete { name } => OperationView::Delete { name: name@ },
            Operation::Retrieve { name } => OperationView::Retrieve { name: name@ },
            Operation::StoreAt { name, content } => OperationView::StoreAt {
                name: name@,
                content: content@,
            },
            Operation::StoreGenerated { prefix, content } => OperationView::StoreGenerated {
                prefix: prefix@,
                content: content@,
            },
            Operation::Unmatched => OperationView::Unmatched,
        }
    }
}

/// Whether `path` is a slash followed by one segment: at least one more
/// character, none of them a slash.
pub open spec fn is_single_segment(path: Seq<char>) -> bool {
    &&& path.len() >= 2
    &&& path[0] == '/'
    &&& forall|i: int| 1 <= i < path.len() ==> path[i] != '/'
}

/// The segment that `path` names, where it names one.
pub open spec fn segment_of(path: Seq<char>) -> Option<Seq<char>> {
    if is_single_segment(path) {
        Some(path.subrange(1, path.len() as int))
    } else {
        None
    }
}

/// The operation that a request asks for.  The body counts only where the
/// operation stores it.
pub open spec fn selected(method: Method, path: Seq<char>, body: Seq<u8>) -> OperationView {
    match segment_of(path) {
        None => OperationView::Unmatched,
        Some(name) => match method {
            Method::Delete => OperationView::Delete { name },
            Method::Get => OperationView::Retrieve { name },
            Method::Put => OperationView::StoreAt { name, content: body },
            Method::Post => OperationView::StoreGenerated { prefix: name, content: body },
            Method::Other => OperationView::Unmatched,
        },
    }
}

impl Method {
    /// Whether a request of this method carries a body that an operation
    /// stores.
    pub fn stores_body(&self) -> (stores: bool)
        ensures
            stores == (*self == Method::Put || *self == Method::Post),
    {
        match self {
            Method::Put | Method::Post => true,
            _ => false,
        }
    }
}

/// The segment that `path` names, where it is a slash followed by exactly
/// one segment.
pub fn segment(path: &str) -> (name: Option<String>)
    ensures
        name is Some <==> is_single_segment(path@),
        name matches Some(segment) ==> Some(segment@) == segment_of(path@),
{
    broadcast use vstd::string::group_string_axioms;

    let mut fits = true;
    let mut seen: u8 = 0;
    for c in it: path.chars()
        invariant
            it.seq() == path@,
            seen <= 2,
            seen < 2 ==> seen == it.index(),
            seen == 2 ==> it.index() >= 2,
            fits <==> (it.index() >= 1 ==> path@[0] == '/') && forall|k: int|
                1 <= k < it.index() ==> path@[k] != '/',
    {
        if seen == 0 {
            fits = c == '/';
        } else if c == '/' {
            fits = false;
        }
        if seen < 2 {
            seen += 1;
        }
    }
    if fits && seen == 2 {
        let len = path.unicode_len();
        Some(path.substring_char(1, len).to_owned())
    } else {
        None
    }
}

/// Chooses the operation that a request asks for.  The body is dropped
/// unless the operation stores it.
pub fn select(method: Method, path: &str, body: Vec<u8>) -> (operation: Operation)
    ensures
        operation@ == selected(method, path@, body@),
{
    match segment(path) {
        None => Operation::Unmatched,
        Some(name) => match method {
            Method::Delete => Operation::Delete { name },
            Method::Get => Operation::Retrieve { name },
            Method::Put => Operation::StoreAt { name, content: body },
            Method::Post => Operation::StoreGenerated { prefix: name, content: body },
            Method::Other => Operation::Unmatched,
        },
    }
}

} // verus!
