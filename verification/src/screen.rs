//! What the portal's character display shows, and its buttons.
use vstd::prelude::*;
use vstd::string::{StringExecFns, StrSliceExecFns};
use crate::remote::uploader::Status;
use crate::text::push_char;

verus! {

pub const EMPTY_STRING: &'static str = "                    ";

pub const MAIN_MENU: u8 = 0;
pub const SETTINGS_MENU: u8 = 1;
pub const READING_MENU: u8 = 2;
pub const ABOUT_MENU: u8 = 3;
pub const SHUTDOWN_MENU: u8 = 4;
pub const STARTUP_MENU: u8 = 5;
pub const RESTART_MENU: u8 = 6;
pub const MANUAL_TIME_MENU: u8 = 7;
pub const UPDATE_MENU: u8 = 8;
pub const DELETE_READS_MENU: u8 = 9;
pub const DELETE_READS_MENU_TWO: u8 = 10;
pub const SCREEN_OFF: u8 = 15;

pub const MAIN_START_READING: u8 = 0;
pub const MAIN_SETTINGS: u8 = 1;
pub const MAIN_ABOUT: u8 = 2;
pub const MAIN_UPDATE: u8 = 3;
pub const MAIN_RESTART: u8 = 4;
pub const MAIN_SHUTDOWN: u8 = 5;

pub const SETTINGS_READ_WINDOW: u8 = 0;
pub const SETTINGS_CHIP_TYPE: u8 = 1;
pub const SETTINGS_PLAY_SOUND: u8 = 2;
pub const SETTINGS_VOLUME: u8 = 3;
pub const SETTINGS_VOICE: u8 = 4;
pub const SETTINGS_AUTO_UPLOAD: u8 = 5;
pub const SETTINGS_MANUAL_UPLOAD: u8 = 6;
pub const SETTINGS_UPLOAD_INTERVAL: u8 = 7;
pub const SETTINGS_ENABLE_NTFY: u8 = 8;
pub const SETTINGS_DELETE_CHIP_READS: u8 = 9;
pub const SETTINGS_SET_TIME_WEB: u8 = 10;
pub const SETTINGS_SET_TIME_MANUAL: u8 = 11;

pub const TIME_MENU_YEAR: u8 = 0;
pub const TIME_MENU_MONTH: u8 = 1;
pub const TIME_MENU_DAY: u8 = 2;
pub const TIME_MENU_HOUR: u8 = 3;
pub const TIME_MENU_MINUTE: u8 = 4;
pub const TIME_MENU_SECOND: u8 = 5;

/// The title bar: the name, padded with spaces to the display's twenty columns.
pub const TITLE_BAR: &'static str = "Chronokeep          ";
pub const MAIN_MENU_START_READING: &'static str = " > Start Reading    ";
pub const MAIN_MENU_SETTINGS: &'static str = "   Settings         ";
pub const MAIN_MENU_ABOUT: &'static str = "   About            ";
pub const MAIN_MENU_UPDATE: &'static str = "   Update           ";
pub const MAIN_MENU_RESTART: &'static str = "   Restart          ";
pub const MAIN_MENU_SHUTDOWN: &'static str = "   Shutdown         ";

#[derive(Debug, Clone, Copy, PartialEq, Eq, Structural)]
pub enum ButtonPress {
    Up,
    Down,
    Left,
    Right,
    Enter,
}

/// The GPIO pins the display's five buttons are wired to.
#[derive(Debug, Clone, Copy, PartialEq, Eq, Structural)]
pub struct ButtonPins {
    pub up: u8,
    pub down: u8,
    pub left: u8,
    pub right: u8,
    pub enter: u8,
}

/// The button a pin belongs to, looked for in the order up, down, left,
/// right, enter.
pub open spec fn button_spec(pins: ButtonPins, pin: u8) -> Option<ButtonPress> {
    if pin == pins.up {
        Some(ButtonPress::Up)
    } else if pin == pins.down {
        Some(ButtonPress::Down)
    } else if pin == pins.left {
        Some(ButtonPress::Left)
    } else if pin == pins.right {
        Some(ButtonPress::Right)
    } else if pin == pins.enter {
        Some(ButtonPress::Enter)
    } else {
        None
    }
}

impl ButtonPins {
    /// The button pressed when `pin` raised an interrupt, if it is one of them.
    pub fn button_for(&self, pin: u8) -> (r: Option<ButtonPress>)
        ensures
            r == button_spec(*self, pin),
    {
        if pin == self.up {
            Some(ButtonPress::Up)
        } else if pin == self.down {
            Some(ButtonPress::Down)
        } else if pin == self.left {
            Some(ButtonPress::Left)
        } else if pin == self.right {
            Some(ButtonPress::Right)
        } else if pin == self.enter {
            Some(ButtonPress::Enter)
        } else {
            None
        }
    }
}

/// The text of each line.
pub open spec fn lines_view(v: Seq<String>) -> Seq<Seq<char>> {
    v.map_values(|s: String| s@)
}

/// A menu line whose second column can be rewritten in place: it has at
/// least two characters, and the first two are ASCII.
pub open spec fn line_markable(line: Seq<char>) -> bool {
    line.len() >= 2 && (line[0] as u32) < 128 && (line[1] as u32) < 128
}

/// The lines of a menu with `ix` marked: the second column holds `>` on that
/// line and a space on every other.
pub open spec fn marked(lines: Seq<Seq<char>>, ix: int) -> Seq<Seq<char>> {
    Seq::new(lines.len(), |i: int| lines[i].update(1, if i == ix { '>' } else { ' ' }))
}

/// The line with its second character replaced by `c`.
fn with_second(line: &str, c: char) -> (r: String)
    requires
        line@.len() >= 2,
    ensures
        r@ == line@.update(1, c),
{
    let n = line.unicode_len();
    let mut s = String::new();
    push_char(&mut s, line.get_char(0));
    push_char(&mut s, c);
    let mut k: usize = 2;
    while k < n
        invariant
            2 <= k <= n,
            n == line@.len(),
            s@ == line@.update(1, c).subrange(0, k as int),
        decreases n - k,
    {
        push_char(&mut s, line.get_char(k));
        k = k + 1;
        assert(s@ =~= line@.update(1, c).subrange(0, k as int));
    }
    assert(s@ =~= line@.update(1, c));
    s
}

/// Marks line `ix` of a menu as the one selected.
pub fn select_line(lines: &mut Vec<String>, ix: usize)
    requires
        ix < old(lines)@.len(),
        forall|i: int| 0 <= i < old(lines)@.len() ==> line_markable(#[trigger] old(lines)@[i]@),
    ensures
        lines_view(final(lines)@) == marked(lines_view(old(lines)@), ix as int),
        forall|i: int| 0 <= i < final(lines)@.len() ==> line_markable(#[trigger] final(lines)@[i]@),
{
    let ghost start = lines_view(lines@);
    let mut i: usize = 0;
    while i < lines.len()
        invariant
            i <= lines@.len(),
            lines@.len() == start.len(),
            ix < start.len(),
            forall|j: int| 0 <= j < lines@.len() ==> line_markable(#[trigger] lines@[j]@),
            forall|j: int| i <= j < lines@.len() ==> (#[trigger] lines@[j])@ == start[j],
            forall|j: int| 0 <= j < i ==> (#[trigger] lines@[j])@ == marked(start, ix as int)[j],
            forall|j: int| 0 <= j < start.len() ==> line_markable(#[trigger] start[j]),
        decreases lines.len() - i,
    {
        let c = if i == ix { '>' } else { ' ' };
        let line = with_second(lines[i].as_str(), c);
        lines.set(i, line);
        i = i + 1;
    }
    assert(lines_view(lines@) =~= marked(start, ix as int));
}

pub struct DisplayInfo {
    pub title_bar: String,
    pub reader_info: Vec<String>,
    pub main_menu: Vec<String>,
    pub settings_menu: Vec<String>,
    pub upload_status: Status,
    pub upload_errors: usize,
}

/// The main menu as the display starts with it, the first entry selected.
pub open spec fn main_menu_spec() -> Seq<Seq<char>> {
    seq![
        MAIN_MENU_START_READING@,
        MAIN_MENU_SETTINGS@,
        MAIN_MENU_ABOUT@,
        MAIN_MENU_UPDATE@,
        MAIN_MENU_RESTART@,
        MAIN_MENU_SHUTDOWN@,
    ]
}

impl DisplayInfo {
    /// The display as it starts: the title, the main menu, and nothing known
    /// of readers, settings or uploads.
    pub fn new() -> (r: DisplayInfo)
        ensures
            r.title_bar@ == TITLE_BAR@,
            lines_view(r.reader_info@) == Seq::<Seq<char>>::empty(),
            lines_view(r.main_menu@) == main_menu_spec(),
            forall|i: int| 0 <= i < r.main_menu@.len() ==> line_markable(#[trigger] r.main_menu@[i]@),
            lines_view(r.settings_menu@) == Seq::<Seq<char>>::empty(),
            r.upload_status == Status::Unknown,
            r.upload_errors == 0,
    {
        let mut main_menu: Vec<String> = Vec::new();
        main_menu.push(String::from_str(MAIN_MENU_START_READING));
        main_menu.push(String::from_str(MAIN_MENU_SETTINGS));
        main_menu.push(String::from_str(MAIN_MENU_ABOUT));
        main_menu.push(String::from_str(MAIN_MENU_UPDATE));
        main_menu.push(String::from_str(MAIN_MENU_RESTART));
        main_menu.push(String::from_str(MAIN_MENU_SHUTDOWN));
        let r = DisplayInfo {
            title_bar: String::from_str(TITLE_BAR),
            reader_info: Vec::new(),
            main_menu,
            settings_menu: Vec::new(),
            upload_status: Status::Unknown,
            upload_errors: 0,
        };
        assert(lines_view(r.main_menu@) =~= main_menu_spec());
        proof {
            reveal_strlit(" > Start Reading    ");
            reveal_strlit("   Settings         ");
            reveal_strlit("   About            ");
            reveal_strlit("   Update           ");
            reveal_strlit("   Restart          ");
            reveal_strlit("   Shutdown         ");
            assert forall|i: int| 0 <= i < r.main_menu@.len() implies line_markable(#[trigger] r.main_menu@[i]@) by {
                assert(r.main_menu@[i]@ == main_menu_spec()[i]);
            }
        }
        assert(lines_view(r.reader_info@) =~= Seq::<Seq<char>>::empty());
        assert(lines_view(r.settings_menu@) =~= Seq::<Seq<char>>::empty());
        r
    }

    /// Notes the uploader's state and how many errors it has met.
    pub fn update_upload_status(&mut self, status: Status, err_count: usize)
        ensures
            final(self).upload_status == status,
            final(self).upload_errors == err_count,
            final(self).title_bar@ == old(self).title_bar@,
            lines_view(final(self).reader_info@) == lines_view(old(self).reader_info@),
            lines_view(final(self).main_menu@) == lines_view(old(self).main_menu@),
            lines_view(final(self).settings_menu@) == lines_view(old(self).settings_menu@),
    {
        self.upload_errors = err_count;
        self.upload_status = status;
    }

    /// Moves the selection marker of the menu shown to the entry selected:
    /// `current_menu` holds the menu and the entry. Other menus draw no marker.
    pub fn update_menu(&mut self, current_menu: &[u8; 3])
        requires
            current_menu@[0] == MAIN_MENU ==> current_menu@[1] < old(self).main_menu@.len(),
            current_menu@[0] == MAIN_MENU ==> forall|i: int|
                0 <= i < old(self).main_menu@.len() ==> line_markable(#[trigger] old(self).main_menu@[i]@),
            current_menu@[0] == SETTINGS_MENU ==> current_menu@[1] < old(self).settings_menu@.len(),
            current_menu@[0] == SETTINGS_MENU ==> forall|i: int|
                0 <= i < old(self).settings_menu@.len() ==> line_markable(#[trigger] old(self).settings_menu@[i]@),
        ensures
            lines_view(final(self).main_menu@) == (if current_menu@[0] == MAIN_MENU {
                marked(lines_view(old(self).main_menu@), current_menu@[1] as int)
            } else {
                lines_view(old(self).main_menu@)
            }),
            lines_view(final(self).settings_menu@) == (if current_menu@[0] == SETTINGS_MENU {
                marked(lines_view(old(self).settings_menu@), current_menu@[1] as int)
            } else {
                lines_view(old(self).settings_menu@)
            }),
            final(self).title_bar@ == old(self).title_bar@,
            lines_view(final(self).reader_info@) == lines_view(old(self).reader_info@),
            final(self).upload_status == old(self).upload_status,
            final(self).upload_errors == old(self).upload_errors,
    {
        let menu = current_menu[0];
        let ix = current_menu[1] as usize;
        if menu == MAIN_MENU {
            select_line(&mut self.main_menu, ix);
        } else if menu == SETTINGS_MENU {
            select_line(&mut self.settings_menu, ix);
        }
    }
}

} // verus!
