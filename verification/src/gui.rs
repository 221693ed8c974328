//! The message log: what happened, in the order it happened.

use vstd::prelude::*;
use vstd::string::StringExecFns;
use crate::colors::Color;
use crate::fov::FovMap;
use crate::object::{world, Object, ObjectView};

verus! {

/// One line of the log as the rules see it: its text and its colour.
pub type Message = (Seq<char>, Color);

/// An append-only list of coloured lines. New lines go to the end and nothing
/// is ever taken out or reordered.
pub struct Messages {
    messages: Vec<(String, Color)>,
}

impl View for Messages {
    type V = Seq<Message>;

    closed spec fn view(&self) -> Seq<Message> {
        self.messages@.map_values(|m: (String, Color)| (m.0@, m.1))
    }
}

impl Messages {
    /// An empty log.
    pub fn new() -> (log: Self)
        ensures
            log@ == Seq::<Message>::empty(),
    {
        let log = Messages { messages: Vec::new() };
        assert(log@ =~= Seq::<Message>::empty());
        log
    }

    /// Appends one line.
    pub fn add(&mut self, message: String, color: Color)
        ensures
            final(self)@ == old(self)@.push((message@, color)),
    {
        self.messages.push((message, color));
        assert(self@ =~= old(self)@.push((message@, color)));
    }

    /// The lines from the oldest to the newest; walk it backwards for the
    /// newest first.
    pub fn iter(&self) -> (lines: core::slice::Iter<'_, (String, Color)>)
        ensures
            vstd::std_specs::slice::into_iter_elts(lines).map_values(
                |m: (String, Color)| (m.0@, m.1),
            ) == self@,
    {
        self.messages.iter()
    }

    /// How many lines the log holds.
    pub fn len(&self) -> (n: usize)
        ensures
            n == self@.len(),
    {
        self.messages.len()
    }

    /// The line at `index`, counted from the oldest.
    pub fn get(&self, index: usize) -> (line: &(String, Color))
        requires
            index < self@.len(),
        ensures
            (line.0@, line.1) == self@[index as int],
    {
        &self.messages[index]
    }
}

/// The names of those among the first `count` entities that stand on
/// `(x, y)`, in the order of the entities, if that cell is seen; none if it
/// is not.
pub open spec fn names_at(entities: Seq<ObjectView>, seen: bool, x: int, y: int, count: int) -> Seq<
    Seq<char>,
>
    decreases count,
{
    if count <= 0 {
        Seq::empty()
    } else {
        let before = names_at(entities, seen, x, y, count - 1);
        let o = entities[count - 1];
        if o.x == x && o.y == y && seen {
            before.push(o.name)
        } else {
            before
        }
    }
}

/// The names in one line, with a comma and a blank between each two.
pub open spec fn comma_list(names: Seq<Seq<char>>) -> Seq<char>
    decreases names.len(),
{
    if names.len() == 0 {
        Seq::empty()
    } else if names.len() == 1 {
        names[0]
    } else {
        comma_list(names.drop_last()) + ", "@ + names.last()
    }
}

/// What the status line says of the cell `(x, y)` under the mouse: the names
/// of all the entities that stand there, if the player can see the cell.
pub fn get_names_under_mouse(x: i32, y: i32, objects: &[Object], fov: &FovMap) -> (line: String)
    requires
        (exists|i: int| 0 <= i < objects@.len() && objects@[i].x == x && objects@[i].y == y)
            ==> fov.contains(x as int, y as int),
    ensures
        line@ == comma_list(
            names_at(
                world(objects@),
                fov.visible(x as int, y as int),
                x as int,
                y as int,
                objects@.len() as int,
            ),
        ),
{
    let mut line = String::new();
    let mut none_yet = true;
    let ghost seen = fov.visible(x as int, y as int);
    let mut i: usize = 0;
    while i < objects.len()
        invariant
            i <= objects@.len(),
            seen == fov.visible(x as int, y as int),
            (exists|i: int| 0 <= i < objects@.len() && objects@[i].x == x && objects@[i].y == y)
                ==> fov.contains(x as int, y as int),
            none_yet == (names_at(world(objects@), seen, x as int, y as int, i as int).len() == 0),
            line@ == comma_list(names_at(world(objects@), seen, x as int, y as int, i as int)),
        decreases objects@.len() - i,
    {
        let ghost names = names_at(world(objects@), seen, x as int, y as int, i as int);
        if objects[i].x == x && objects[i].y == y && fov.is_in_fov(x, y) {
            if !none_yet {
                line.append(", ");
            }
            line.append(objects[i].name.as_str());
            none_yet = false;
            proof {
                let more = names.push(objects@[i as int].name@);
                assert(more.drop_last() =~= names);
                assert(line@ =~= comma_list(more));
            }
        }
        i += 1;
    }
    line
}

} // verus!
