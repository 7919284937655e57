use vstd::prelude::*;

verus! {

/// A stored board game: the id that the store assigned and its name.
#[derive(Debug)]
pub struct Bg {
    pub id: i64,
    pub name: String,
}

impl Bg {
    pub fn new(id: i64, name: String) -> (r: Bg)
        ensures
            r.id == id,
            r.name@ == name@,
    {
        Bg { id, name }
    }
}

} // verus!
