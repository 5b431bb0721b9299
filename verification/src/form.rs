use vstd::prelude::*;
use vstd::pervasive::VecAdditionalExecFns;

use crate::text::{byte_len, chars_of, copy_str, string_of};

verus! {

/// The three-field editor of a recipe (name, description, command): the fields' text,
/// a cursor per field (a character position), and the field being edited.
#[derive(Debug)]
pub struct RecipeForm {
    pub fields: Vec<String>,
    pub cursors: Vec<usize>,
    pub active_field: usize,
}

impl RecipeForm {
    /// Three fields and three cursors, one of them active.
    pub open spec fn wf(&self) -> bool {
        self.fields@.len() == 3 && self.cursors@.len() == 3 && self.active_field < 3
    }

    /// The text of the active field.
    pub open spec fn active_text(&self) -> Seq<char> {
        self.fields@[self.active_field as int]@
    }

    /// The cursor of the active field.
    pub open spec fn active_cursor(&self) -> usize {
        self.cursors@[self.active_field as int]
    }

    /// An empty form on the first field.
    pub fn new() -> (r: Self)
        ensures
            r.wf(),
            r.active_field == 0,
            r.fields@[0]@.len() == 0,
            r.fields@[1]@.len() == 0,
            r.fields@[2]@.len() == 0,
            r.cursors@ == seq![0usize, 0usize, 0usize],
    {
        let mut fields: Vec<String> = Vec::new();
        fields.push(String::new());
        fields.push(String::new());
        fields.push(String::new());
        let mut cursors: Vec<usize> = Vec::new();
        cursors.push(0);
        cursors.push(0);
        cursors.push(0);
        assert(cursors@ =~= seq![0usize, 0usize, 0usize]);
        RecipeForm { fields, cursors, active_field: 0 }
    }

    /// Empties the form and goes back to the first field.
    pub fn clear(&mut self)
        ensures
            final(self).wf(),
            final(self).active_field == 0,
            final(self).fields@[0]@.len() == 0,
            final(self).fields@[1]@.len() == 0,
            final(self).fields@[2]@.len() == 0,
            final(self).cursors@ == seq![0usize, 0usize, 0usize],
    {
        *self = RecipeForm::new();
    }

    /// Fills the form with a recipe's name, description and command; each cursor goes
    /// to the field's UTF-8 byte length; the first field becomes active.
    pub fn load(&mut self, name: &str, desc: &str, cmd: &str)
        ensures
            final(self).wf(),
            final(self).active_field == 0,
            final(self).fields@[0]@ == name@,
            final(self).fields@[1]@ == desc@,
            final(self).fields@[2]@ == cmd@,
            final(self).cursors@[0] == byte_len(name@),
            final(self).cursors@[1] == byte_len(desc@),
            final(self).cursors@[2] == byte_len(cmd@),
    {
        let mut fields: Vec<String> = Vec::new();
        fields.push(copy_str(name));
        fields.push(copy_str(desc));
        fields.push(copy_str(cmd));
        let mut cursors: Vec<usize> = Vec::new();
        cursors.push(name.len());
        cursors.push(desc.len());
        cursors.push(cmd.len());
        *self = RecipeForm { fields, cursors, active_field: 0 };
    }

    /// Moves the active cursor one character right (up to the end of the field) when
    /// `dir > 0`, one left (down to the start) otherwise.
    pub fn step_cursor(&mut self, dir: i32)
        requires
            old(self).wf(),
            dir > 0 ==> old(self).active_cursor() < usize::MAX,
        ensures
            cursor_stepped(*old(self), *final(self), dir > 0),
    {
        let idx = self.active_field;
        let max = chars_of(self.fields[idx].as_str()).len();
        let cur = self.cursors[idx];
        let next = if dir > 0 {
            if cur + 1 <= max {
                cur + 1
            } else {
                max
            }
        } else if cur > 0 {
            cur - 1
        } else {
            0
        };
        self.cursors.set(idx, next);
    }

    /// Inserts `c` at the active cursor, which must lie within the field, and moves the
    /// cursor past it.
    pub fn insert_char(&mut self, c: char)
        requires
            old(self).wf(),
            old(self).active_cursor() <= old(self).active_text().len(),
            old(self).active_cursor() < usize::MAX,
        ensures
            char_inserted(*old(self), *final(self), c),
    {
        let idx = self.active_field;
        let mut t = chars_of(self.fields[idx].as_str());
        let cur = self.cursors[idx];
        t.insert(cur, c);
        self.fields.set(idx, string_of(&t));
        self.cursors.set(idx, cur + 1);
    }

    /// Deletes the character before the active cursor (which must not lie beyond the
    /// field) and moves the cursor back; nothing at the start.
    pub fn delete_before_cursor(&mut self)
        requires
            old(self).wf(),
            old(self).active_cursor() <= old(self).active_text().len(),
        ensures
            deleted_before(*old(self), *final(self)),
    {
        let idx = self.active_field;
        let cur = self.cursors[idx];
        if cur > 0 {
            let mut t = chars_of(self.fields[idx].as_str());
            t.remove(cur - 1);
            self.fields.set(idx, string_of(&t));
            self.cursors.set(idx, cur - 1);
        }
    }

    /// Deletes the character at the active cursor; nothing at or beyond the end.
    pub fn delete_at_cursor(&mut self)
        requires
            old(self).wf(),
        ensures
            deleted_at(*old(self), *final(self)),
    {
        let idx = self.active_field;
        let cur = self.cursors[idx];
        let mut t = chars_of(self.fields[idx].as_str());
        if cur < t.len() {
            t.remove(cur);
            self.fields.set(idx, string_of(&t));
        }
    }
}

/// `f` is form `o` with the active cursor moved one character right (`right`, up to
/// the end of the field) or left (down to the start).
pub open spec fn cursor_stepped(o: RecipeForm, f: RecipeForm, right: bool) -> bool {
    &&& f.wf()
    &&& f.fields == o.fields
    &&& f.active_field == o.active_field
    &&& f.cursors@ == o.cursors@.update(
        o.active_field as int,
        if right {
            if o.active_cursor() + 1 <= o.active_text().len() {
                (o.active_cursor() + 1) as usize
            } else {
                o.active_text().len() as usize
            }
        } else if o.active_cursor() > 0 {
            (o.active_cursor() - 1) as usize
        } else {
            0usize
        },
    )
}

/// `f` is form `o` with `c` inserted at the active cursor, which moves past it.
pub open spec fn char_inserted(o: RecipeForm, f: RecipeForm, c: char) -> bool {
    &&& f.wf()
    &&& f.active_field == o.active_field
    &&& forall|i: int| 0 <= i < 3 && i != o.active_field ==> f.fields@[i] == o.fields@[i]
    &&& f.active_text() == o.active_text().insert(o.active_cursor() as int, c)
    &&& f.cursors@ == o.cursors@.update(o.active_field as int, (o.active_cursor() + 1) as usize)
}

/// `f` is form `o` with the character before the active cursor deleted and the cursor
/// moved back; `o` itself when the cursor is at the start.
pub open spec fn deleted_before(o: RecipeForm, f: RecipeForm) -> bool {
    &&& f.wf()
    &&& f.active_field == o.active_field
    &&& forall|i: int| 0 <= i < 3 && i != o.active_field ==> f.fields@[i] == o.fields@[i]
    &&& o.active_cursor() == 0 ==> f.fields == o.fields && f.cursors == o.cursors
    &&& o.active_cursor() > 0 ==> f.active_text() == o.active_text().remove(o.active_cursor() - 1)
        && f.cursors@ == o.cursors@.update(o.active_field as int, (o.active_cursor() - 1) as usize)
}

/// `f` is form `o` with the character at the active cursor deleted; `o` itself when the
/// cursor is at or beyond the end.
pub open spec fn deleted_at(o: RecipeForm, f: RecipeForm) -> bool {
    &&& f.wf()
    &&& f.active_field == o.active_field
    &&& f.cursors == o.cursors
    &&& forall|i: int| 0 <= i < 3 && i != o.active_field ==> f.fields@[i] == o.fields@[i]
    &&& o.active_cursor() >= o.active_text().len() ==> f.fields == o.fields
    &&& o.active_cursor() < o.active_text().len() ==> f.active_text() == o.active_text().remove(o.active_cursor() as int)
}

/// Typing a character in a field and then deleting the character before the cursor
/// gives back the form's text and cursors.
pub proof fn lemma_insert_then_backspace(o: RecipeForm, m: RecipeForm, f: RecipeForm, c: char)
    requires
        o.wf(),
        o.active_cursor() <= o.active_text().len(),
        o.active_cursor() < usize::MAX,
        char_inserted(o, m, c),
        deleted_before(m, f),
    ensures
        f.active_field == o.active_field,
        f.active_text() == o.active_text(),
        forall|i: int| 0 <= i < 3 && i != o.active_field ==> f.fields@[i] == o.fields@[i],
        f.cursors@ == o.cursors@,
{
    assert(m.active_cursor() == o.active_cursor() + 1);
    assert(o.active_text().insert(o.active_cursor() as int, c).remove(o.active_cursor() as int)
        =~= o.active_text());
    assert(f.cursors@ =~= o.cursors@);
}

} // verus!
