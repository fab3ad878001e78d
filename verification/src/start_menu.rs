//! The start menu: which mode to play, signed or unsigned numbers, and the
//! preferences kept between games.
use crate::bits::Bits;
use vstd::arithmetic::power2::{lemma2_to64, pow2};
use crate::keys::{
    is_down, is_exit, is_left, is_right, is_select, is_up, spec_is_down, spec_is_exit,
    spec_is_left, spec_is_right, spec_is_select, spec_is_up, Key,
};
use vstd::prelude::*;

verus! {

/// How the numbers of a game are read.
#[derive(Clone, Copy, PartialEq, Eq, Debug, Structural)]
pub enum NumberMode {
    Unsigned,
    Signed,
}

impl NumberMode {
    pub open spec fn spec_label(self) -> Seq<char> {
        match self {
            NumberMode::Unsigned => "UNSIGNED"@,
            NumberMode::Signed => "SIGNED"@,
        }
    }

    pub fn label(&self) -> (r: &'static str)
        ensures
            r@ == self.spec_label(),
    {
        match self {
            NumberMode::Unsigned => "UNSIGNED",
            NumberMode::Signed => "SIGNED",
        }
    }
}

/// The other number mode.
pub open spec fn toggled(mode: NumberMode) -> NumberMode {
    match mode {
        NumberMode::Unsigned => NumberMode::Signed,
        NumberMode::Signed => NumberMode::Unsigned,
    }
}

/// What the menu remembers between games.
#[derive(Clone, Copy, PartialEq, Eq, Debug, Structural)]
pub struct AppPreferences {
    pub last_selected_index: usize,
    pub last_number_mode: NumberMode,
}

impl Default for AppPreferences {
    /// The byte mode, unsigned.
    fn default() -> (r: Self)
        ensures
            r.last_selected_index == 4,
            r.last_number_mode == NumberMode::Unsigned,
    {
        AppPreferences { last_selected_index: 4, last_number_mode: NumberMode::Unsigned }
    }
}

/// The colour of a mode, as red, green and blue, going from green for the
/// easiest to pink for the hardest; the two's-complement mode, which sits
/// beside the plain four-bit mode, is yellow-green.
pub fn get_mode_color(bits: &Bits) -> (r: (u8, u8, u8))
    ensures
        r == mode_rgb(*bits),
{
    match bits {
        Bits::Four => (100, 255, 100),
        Bits::FourShift4 => (100, 255, 180),
        Bits::FourShift8 => (100, 220, 255),
        Bits::FourShift12 => (100, 180, 255),
        Bits::Eight => (125, 120, 255),
        Bits::Twelve => (200, 100, 255),
        Bits::Sixteen => (255, 80, 150),
        Bits::FourTwosComplement => (180, 255, 100),
    }
}

pub open spec fn mode_rgb(bits: Bits) -> (u8, u8, u8) {
    match bits {
        Bits::Four => (100, 255, 100),
        Bits::FourShift4 => (100, 255, 180),
        Bits::FourShift8 => (100, 220, 255),
        Bits::FourShift12 => (100, 180, 255),
        Bits::Eight => (125, 120, 255),
        Bits::Twelve => (200, 100, 255),
        Bits::Sixteen => (255, 80, 150),
        Bits::FourTwosComplement => (180, 255, 100),
    }
}

/// Every mode has a colour of its own.
pub proof fn lemma_mode_colors_distinct(a: Bits, b: Bits)
    requires
        a != b,
    ensures
        mode_rgb(a) != mode_rgb(b),
{
}

/// The modes the menu offers, top to bottom.
pub open spec fn menu_bits(i: int) -> Bits {
    if i == 0 {
        Bits::Four
    } else if i == 1 {
        Bits::FourShift4
    } else if i == 2 {
        Bits::FourShift8
    } else if i == 3 {
        Bits::FourShift12
    } else if i == 4 {
        Bits::Eight
    } else if i == 5 {
        Bits::Twelve
    } else {
        Bits::Sixteen
    }
}

/// The menu's labels, top to bottom.
pub open spec fn menu_label(i: int) -> Seq<char> {
    if i == 0 {
        "nibble_0    4 bit"@
    } else if i == 1 {
        "nibble_1    4 bit*16"@
    } else if i == 2 {
        "nibble_2    4 bit*256"@
    } else if i == 3 {
        "nibble_3    4 bit*4096"@
    } else if i == 4 {
        "byte        8 bit"@
    } else if i == 5 {
        "hexlet     12 bit"@
    } else {
        "word       16 bit"@
    }
}

/// Number of entries in the menu.
pub const MENU_LEN: usize = 7;

/// The start menu's state: its seven entries (the labels of `menu_label`
/// with the modes of `menu_bits`, always), the cursor and the number mode.
pub struct StartMenu {
    items: Vec<(String, Bits)>,
    selected: usize,
    number_mode: NumberMode,
}

/// What a key press in the menu asks of the caller.
#[derive(Clone, Copy, PartialEq, Eq, Debug, Structural)]
pub enum MenuOutcome {
    /// Stay in the menu.
    Stay,
    /// Stay in the menu and pause or resume its animation.
    ToggleAnimation,
    /// Start a game; the preferences now hold the menu's choice.
    Play(Bits, NumberMode, AppPreferences),
    /// Leave the program, with these preferences.
    Exit(AppPreferences),
}

impl StartMenu {
    /// The entry under the cursor.
    pub closed spec fn spec_selected(&self) -> usize {
        self.selected
    }

    pub closed spec fn spec_number_mode(&self) -> NumberMode {
        self.number_mode
    }

    /// The entries: seven, with the labels and modes of `menu_label` and
    /// `menu_bits`.
    #[verifier::type_invariant]
    spec fn wf(&self) -> bool {
        &&& self.items@.len() == MENU_LEN
        &&& forall|i: int|
            0 <= i < MENU_LEN ==> (#[trigger] self.items@[i]).0@ == menu_label(i)
                && self.items@[i].1 == menu_bits(i)
    }

    pub fn new(prefs: AppPreferences) -> (r: Self)
        ensures
            r.spec_selected() == prefs.last_selected_index,
            r.spec_number_mode() == prefs.last_number_mode,
    {
        Self::with_preferences(prefs)
    }

    /// The menu with the cursor and number mode the preferences remember.
    pub fn with_preferences(prefs: AppPreferences) -> (r: Self)
        ensures
            r.spec_selected() == prefs.last_selected_index,
            r.spec_number_mode() == prefs.last_number_mode,
    {
        let mut items: Vec<(String, Bits)> = Vec::new();
        items.push(("nibble_0    4 bit".to_owned(), Bits::Four));
        items.push(("nibble_1    4 bit*16".to_owned(), Bits::FourShift4));
        items.push(("nibble_2    4 bit*256".to_owned(), Bits::FourShift8));
        items.push(("nibble_3    4 bit*4096".to_owned(), Bits::FourShift12));
        items.push(("byte        8 bit".to_owned(), Bits::Eight));
        items.push(("hexlet     12 bit".to_owned(), Bits::Twelve));
        items.push(("word       16 bit".to_owned(), Bits::Sixteen));
        StartMenu { items, selected: prefs.last_selected_index, number_mode: prefs.last_number_mode }
    }

    /// Number of entries.
    pub fn len(&self) -> (r: usize)
        ensures
            r == MENU_LEN,
    {
        proof {
            use_type_invariant(self);
        }
        self.items.len()
    }

    /// The label of entry `i`.
    pub fn label(&self, i: usize) -> (r: &str)
        requires
            i < MENU_LEN,
        ensures
            r@ == menu_label(i as int),
    {
        proof {
            use_type_invariant(self);
        }
        self.items[i].0.as_str()
    }

    /// The mode of entry `i`.
    pub fn bits_at(&self, i: usize) -> (r: Bits)
        requires
            i < MENU_LEN,
        ensures
            r == menu_bits(i as int),
    {
        proof {
            use_type_invariant(self);
        }
        self.items[i].1
    }

    pub fn number_mode(&self) -> (r: NumberMode)
        ensures
            r == self.spec_number_mode(),
    {
        self.number_mode
    }

    pub fn selected_index(&self) -> (r: usize)
        ensures
            r == self.spec_selected(),
    {
        self.selected
    }

    /// The mode under the cursor.
    pub fn selected_bits(&self) -> (r: Bits)
        requires
            self.spec_selected() < MENU_LEN,
        ensures
            r == menu_bits(self.spec_selected() as int),
    {
        proof {
            use_type_invariant(self);
        }
        self.items[self.selected].1
    }

    /// Moves the cursor down one entry; it stays on the last.
    pub fn select_next(&mut self)
        ensures
            final(self).spec_number_mode() == old(self).spec_number_mode(),
            final(self).spec_selected() == if old(self).spec_selected() + 1 >= MENU_LEN {
                old(self).spec_selected() as int
            } else {
                old(self).spec_selected() + 1
            },
    {
        proof {
            use_type_invariant(&*self);
        }
        let current = self.selected;
        let next = if current >= self.items.len() - 1 {
            current
        } else {
            current + 1
        };
        self.selected = next;
    }

    /// Moves the cursor up one entry; it stays on the first.
    pub fn select_previous(&mut self)
        ensures
            final(self).spec_number_mode() == old(self).spec_number_mode(),
            final(self).spec_selected() == if old(self).spec_selected() == 0 {
                0
            } else {
                old(self).spec_selected() - 1
            },
    {
        proof {
            use_type_invariant(&*self);
        }
        let current = self.selected;
        let prev = if current == 0 {
            0
        } else {
            current - 1
        };
        self.selected = prev;
    }

    /// Switches between unsigned and signed numbers.
    pub fn toggle_number_mode(&mut self)
        ensures
            final(self).spec_selected() == old(self).spec_selected(),
            final(self).spec_number_mode() == toggled(old(self).spec_number_mode()),
    {
        proof {
            use_type_invariant(&*self);
        }
        self.number_mode = match self.number_mode {
            NumberMode::Unsigned => NumberMode::Signed,
            NumberMode::Signed => NumberMode::Unsigned,
        };
    }

    /// `post` is `pre` after `key`, and `out` what the caller is asked to
    /// do: up and down move the cursor, left and right switch the number
    /// mode, Enter plays the entry under the cursor (remembering it),
    /// Esc or Q leaves, A pauses or resumes the animation.
    pub open spec fn after_key(
        pre: &Self,
        post: &Self,
        key: Key,
        prefs: AppPreferences,
        out: MenuOutcome,
    ) -> bool {
        let sel = pre.spec_selected();
        let mode = pre.spec_number_mode();
        &&& post.spec_selected() == if spec_is_up(key) {
            if sel == 0 { 0 } else { sel - 1 }
        } else if spec_is_down(key) {
            if sel + 1 >= MENU_LEN { sel as int } else { sel + 1 }
        } else {
            sel as int
        }
        &&& post.spec_number_mode() == if !spec_is_up(key) && !spec_is_down(key) && (spec_is_left(
            key,
        ) || spec_is_right(key)) {
            toggled(mode)
        } else {
            mode
        }
        &&& out == pre.outcome(key, prefs)
    }

    /// What a key asks of the caller: nothing for the cursor and mode keys,
    /// a game of the entry under the cursor (remembered as the new
    /// preferences) for Enter, leaving for Esc or Q, the animation for A.
    pub open spec fn outcome(&self, key: Key, prefs: AppPreferences) -> MenuOutcome {
        let sel = self.spec_selected();
        let mode = self.spec_number_mode();
        if spec_is_up(key) || spec_is_down(key) || spec_is_left(key) || spec_is_right(key) {
            MenuOutcome::Stay
        } else if spec_is_select(key) {
            MenuOutcome::Play(
                menu_bits(sel as int),
                mode,
                AppPreferences { last_selected_index: sel, last_number_mode: mode },
            )
        } else if spec_is_exit(key) {
            MenuOutcome::Exit(prefs)
        } else if key == Key::Char('a') || key == Key::Char('A') {
            MenuOutcome::ToggleAnimation
        } else {
            MenuOutcome::Stay
        }
    }
}

/// Reacts to a key in the start menu.
pub fn handle_start_input(menu: &mut StartMenu, key: Key, prefs: AppPreferences) -> (out:
    MenuOutcome)
    requires
        spec_is_select(key) ==> old(menu).spec_selected() < MENU_LEN,
    ensures
        StartMenu::after_key(old(menu), final(menu), key, prefs, out),
{
    if is_up(key) {
        menu.select_previous();
        MenuOutcome::Stay
    } else if is_down(key) {
        menu.select_next();
        MenuOutcome::Stay
    } else if is_left(key) || is_right(key) {
        menu.toggle_number_mode();
        MenuOutcome::Stay
    } else if is_select(key) {
        let bits = menu.selected_bits();
        let number_mode = menu.number_mode();
        let updated_prefs = AppPreferences {
            last_selected_index: menu.selected_index(),
            last_number_mode: number_mode,
        };
        MenuOutcome::Play(bits, number_mode, updated_prefs)
    } else if is_exit(key) {
        MenuOutcome::Exit(prefs)
    } else if key == Key::Char('a') || key == Key::Char('A') {
        MenuOutcome::ToggleAnimation
    } else {
        MenuOutcome::Stay
    }
}

/// Toggling the number mode twice gives back the mode.
pub proof fn lemma_toggle_twice(mode: NumberMode)
    ensures
        toggled(toggled(mode)) == mode,
{
}

/// The cursor never leaves the menu: from an entry of the menu every key
/// leads to an entry of the menu.
pub proof fn lemma_cursor_stays(pre: &StartMenu, post: &StartMenu, key: Key, prefs: AppPreferences, out: MenuOutcome)
    requires
        pre.spec_selected() < MENU_LEN,
        StartMenu::after_key(pre, post, key, prefs, out),
    ensures
        post.spec_selected() < MENU_LEN,
{
}

/// The menu goes from the easiest mode to the hardest: first the four
/// nibbles of a sixteen-bit number, four bits each, the `i`-th scaled by
/// `16^i`; then whole numbers of 8, 12 and 16 bits. The two's-complement
/// mode is not among them.
pub proof fn lemma_menu_modes(i: int)
    requires
        0 <= i < MENU_LEN,
    ensures
        i < 4 ==> menu_bits(i).spec_width() == 4 && menu_bits(i).spec_scale() == pow2(
            (4 * i) as nat,
        ),
        i >= 4 ==> menu_bits(i).spec_width() == 4 * (i - 2) && menu_bits(i).spec_scale() == 1,
        menu_bits(i) != Bits::FourTwosComplement,
{
    lemma2_to64();
}

} // verus!
