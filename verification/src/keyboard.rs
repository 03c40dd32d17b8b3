//! Inline keyboards: rows of buttons that each open a link.

use vstd::prelude::*;
use vstd::string::*;

verus! {

/// One button of an inline keyboard: what it shows and where it leads.
#[derive(Debug, PartialEq, Eq)]
pub struct Button {
    pub label: String,
    pub url: String,
}

/// What a `Button` holds, as plain mathematical values.
pub struct ButtonView {
    pub label: Seq<char>,
    pub url: Seq<char>,
}

impl View for Button {
    type V = ButtonView;

    open spec fn view(&self) -> ButtonView {
        ButtonView { label: self.label@, url: self.url@ }
    }
}

impl Clone for Button {
    fn clone(&self) -> (copy: Button)
        ensures
            copy@ == self@,
    {
        Button { label: self.label.clone(), url: self.url.clone() }
    }
}

/// The buttons of one row, in order.
pub open spec fn row_view(row: Seq<Button>) -> Seq<ButtonView> {
    row.map_values(|button: Button| button@)
}

/// A finished keyboard: its rows from top to bottom, the buttons of each
/// row from left to right.
#[derive(Debug, PartialEq, Eq)]
pub struct KeyboardLayout {
    pub rows: Vec<Vec<Button>>,
}

impl View for KeyboardLayout {
    type V = Seq<Seq<ButtonView>>;

    open spec fn view(&self) -> Seq<Seq<ButtonView>> {
        self.rows@.map_values(|row: Vec<Button>| row_view(row@))
    }
}

impl KeyboardLayout {
    /// How many buttons the layout holds in all its rows together.
    pub open spec fn button_count(layout: Seq<Seq<ButtonView>>) -> nat
        decreases layout.len(),
    {
        if layout.len() == 0 {
            0
        } else {
            Self::button_count(layout.drop_last()) + layout.last().len()
        }
    }
}

/// Collects buttons into a keyboard of a single row.
#[derive(Debug)]
pub struct Keyboard {
    row: Vec<Button>,
}

impl View for Keyboard {
    type V = Seq<ButtonView>;

    closed spec fn view(&self) -> Seq<ButtonView> {
        row_view(self.row@)
    }
}

fn clone_row(row: &Vec<Button>) -> (copy: Vec<Button>)
    ensures
        row_view(copy@) == row_view(row@),
{
    let mut copy: Vec<Button> = Vec::new();
    let mut i: usize = 0;
    while i < row.len()
        invariant
            i <= row.len(),
            copy.len() == i,
            forall|j: int| 0 <= j < i ==> (#[trigger] copy[j])@ == row[j]@,
        decreases row.len() - i,
    {
        copy.push(row[i].clone());
        i = i + 1;
    }
    assert(row_view(copy@) =~= row_view(row@));
    copy
}

impl Keyboard {
    /// A keyboard with no button yet.
    pub fn new() -> (keyboard: Keyboard)
        ensures
            keyboard@ == Seq::<ButtonView>::empty(),
    {
        let keyboard = Keyboard { row: Vec::new() };
        assert(keyboard@ =~= Seq::<ButtonView>::empty());
        keyboard
    }

    /// Appends one link button to the row and hands out the layout as it
    /// stands after that.
    pub fn url(&mut self, label: &str, url: &str) -> (layout: KeyboardLayout)
        ensures
            final(self)@ == old(self)@.push(ButtonView { label: label@, url: url@ }),
            layout@ == seq![final(self)@],
    {
        let button = Button { label: String::from_str(label), url: String::from_str(url) };
        self.row.push(button);
        assert(self@ =~= old(self)@.push(ButtonView { label: label@, url: url@ }));
        self.get()
    }

    /// The layout collected so far. The keyboard itself stays as it is, so
    /// asking again gives the same layout.
    pub fn get(&self) -> (layout: KeyboardLayout)
        ensures
            layout@ == seq![self@],
    {
        let mut rows: Vec<Vec<Button>> = Vec::new();
        rows.push(clone_row(&self.row));
        let layout = KeyboardLayout { rows };
        assert(layout@ =~= seq![self@]);
        layout
    }
}

} // verus!
