//! The portal's settings and the control side: the client protocol and sound.
use vstd::prelude::*;

use vstd::string::StringExecFns;
use crate::database::DBError;
use crate::database::memstore::{MemStore, fill_setting, random_byte, same_rows, same_sightings};
use crate::text::{decimal, numeral};
use crate::defaults::{DEFAULT_CHIP_TYPE, DEFAULT_SIGHTING_PERIOD, DEFAULT_VOICE};
use crate::text::{parse_unsigned, unsigned_parse, is_true_text, eq_ignore_ascii_case, digits_value, all_digits};

pub mod socket;
pub mod sound;
pub mod zero_conf;

verus! {

pub const SETTING_SIGHTING_PERIOD: &'static str = "SETTING_SIGHTING_PERIOD";
pub const SETTING_PORTAL_NAME: &'static str = "SETTING_PORTAL_NAME";
pub const SETTING_CHIP_TYPE: &'static str = "SETTING_CHIP_TYPE";
pub const SETTING_READ_WINDOW: &'static str = "SETTING_READ_WINDOW";
pub const SETTING_PLAY_SOUND: &'static str = "SETTING_PLAY_SOUND";
pub const SETTING_VOLUME: &'static str = "SETTING_VOLUME";
pub const SETTING_VOICE: &'static str = "SETTING_VOICE";
pub const SETTING_AUTO_REMOTE: &'static str = "SETTING_AUTO_REMOTE";
pub const SETTING_UPLOAD_INTERVAL: &'static str = "SETTING_UPLOAD_INTERVAL";
pub const SETTING_NTFY_URL: &'static str = "SETTING_NTFY_URL";
pub const SETTING_NTFY_USER: &'static str = "SETTING_NTFY_USER";
pub const SETTING_NTFY_PASS: &'static str = "SETTING_NTFY_PASS";
pub const SETTING_NTFY_TOPIC: &'static str = "SETTING_NTFY_TOPIC";
pub const SETTING_ENABLE_NTFY: &'static str = "SETTING_ENABLE_NTFY";
pub const SETTING_SCREEN_TYPE: &'static str = "SETTING_SCREEN_TYPE";

/// The settings that hold numbers, and the largest value each can take.
pub open spec fn sighting_period_text_ok(m: Map<Seq<char>, Seq<char>>) -> bool {
    unsigned_parse(m[SETTING_SIGHTING_PERIOD@], u32::MAX as int) is Some
}

pub open spec fn read_window_text_ok(m: Map<Seq<char>, Seq<char>>) -> bool {
    unsigned_parse(m[SETTING_READ_WINDOW@], 255) is Some
}

pub open spec fn upload_interval_text_ok(m: Map<Seq<char>, Seq<char>>) -> bool {
    unsigned_parse(m[SETTING_UPLOAD_INTERVAL@], u64::MAX as int) is Some
}

/// Every setting the portal runs by has a value, and those that hold
/// numbers hold numbers that fit.
pub open spec fn settings_complete(m: Map<Seq<char>, Seq<char>>) -> bool {
    &&& m.contains_key(SETTING_SIGHTING_PERIOD@)
    &&& m.contains_key(SETTING_PORTAL_NAME@)
    &&& m.contains_key(SETTING_CHIP_TYPE@)
    &&& m.contains_key(SETTING_READ_WINDOW@)
    &&& m.contains_key(SETTING_PLAY_SOUND@)
    &&& m.contains_key(SETTING_VOLUME@)
    &&& m.contains_key(SETTING_VOICE@)
    &&& m.contains_key(SETTING_AUTO_REMOTE@)
    &&& m.contains_key(SETTING_UPLOAD_INTERVAL@)
    &&& m.contains_key(SETTING_NTFY_URL@)
    &&& m.contains_key(SETTING_NTFY_USER@)
    &&& m.contains_key(SETTING_NTFY_PASS@)
    &&& m.contains_key(SETTING_NTFY_TOPIC@)
    &&& m.contains_key(SETTING_ENABLE_NTFY@)
    &&& sighting_period_text_ok(m)
    &&& read_window_text_ok(m)
    &&& upload_interval_text_ok(m)
}

/// The settings that hold numbers hold numbers that fit, where they have a value.
pub open spec fn settings_usable(m: Map<Seq<char>, Seq<char>>) -> bool {
    &&& m.contains_key(SETTING_SIGHTING_PERIOD@) ==> sighting_period_text_ok(m)
    &&& m.contains_key(SETTING_READ_WINDOW@) ==> read_window_text_ok(m)
    &&& m.contains_key(SETTING_UPLOAD_INTERVAL@) ==> upload_interval_text_ok(m)
}

/// The settings the portal runs by, and the charge of its battery.
pub struct ControlView {
    pub name: Seq<char>,
    pub sighting_period: u32,
    pub read_window: u8,
    pub chip_type: Seq<char>,
    pub play_sound: bool,
    pub volume: Seq<char>,
    pub voice: Seq<char>,
    pub auto_remote: bool,
    pub upload_interval: u64,
    pub ntfy_url: Seq<char>,
    pub ntfy_user: Seq<char>,
    pub ntfy_pass: Seq<char>,
    pub ntfy_topic: Seq<char>,
    pub enable_ntfy: bool,
    pub battery: u8,
}

/// What the stored settings say: text as it is, numbers as `str::parse`
/// reads them, and a flag on where its text is "true" in any case.
pub open spec fn control_spec(m: Map<Seq<char>, Seq<char>>) -> ControlView {
    ControlView {
        name: m[SETTING_PORTAL_NAME@],
        sighting_period: unsigned_parse(m[SETTING_SIGHTING_PERIOD@], u32::MAX as int)->0 as u32,
        read_window: unsigned_parse(m[SETTING_READ_WINDOW@], 255)->0 as u8,
        chip_type: m[SETTING_CHIP_TYPE@],
        play_sound: eq_ignore_ascii_case(m[SETTING_PLAY_SOUND@], "true"@),
        volume: m[SETTING_VOLUME@],
        voice: m[SETTING_VOICE@],
        auto_remote: eq_ignore_ascii_case(m[SETTING_AUTO_REMOTE@], "true"@),
        upload_interval: unsigned_parse(m[SETTING_UPLOAD_INTERVAL@], u64::MAX as int)->0 as u64,
        ntfy_url: m[SETTING_NTFY_URL@],
        ntfy_user: m[SETTING_NTFY_USER@],
        ntfy_pass: m[SETTING_NTFY_PASS@],
        ntfy_topic: m[SETTING_NTFY_TOPIC@],
        enable_ntfy: eq_ignore_ascii_case(m[SETTING_ENABLE_NTFY@], "true"@),
        battery: 0,
    }
}

/// The settings the portal runs by. The volume (a number from 0 to 1) and
/// the voice are kept as the stored text, which the sound output reads.
pub struct Control {
    pub name: String,
    pub sighting_period: u32,
    pub read_window: u8,
    pub chip_type: String,
    pub play_sound: bool,
    pub volume: String,
    pub voice: String,
    pub auto_remote: bool,
    pub upload_interval: u64,
    pub ntfy_url: String,
    pub ntfy_user: String,
    pub ntfy_pass: String,
    pub ntfy_topic: String,
    pub enable_ntfy: bool,
    pub battery: u8,
}

impl View for Control {
    type V = ControlView;

    open spec fn view(&self) -> ControlView {
        ControlView {
            name: self.name@,
            sighting_period: self.sighting_period,
            read_window: self.read_window,
            chip_type: self.chip_type@,
            play_sound: self.play_sound,
            volume: self.volume@,
            voice: self.voice@,
            auto_remote: self.auto_remote,
            upload_interval: self.upload_interval,
            ntfy_url: self.ntfy_url@,
            ntfy_user: self.ntfy_user@,
            ntfy_pass: self.ntfy_pass@,
            ntfy_topic: self.ntfy_topic@,
            enable_ntfy: self.enable_ntfy,
            battery: self.battery,
        }
    }
}

/// The value stored for a setting that has one.
fn stored_text(store: &MemStore, name: &str) -> (r: String)
    requires
        store.wf(),
        store@.settings.contains_key(name@),
    ensures
        r@ == store@.settings[name@],
{
    match store.get_setting(name) {
        Ok(s) => s.Value().clone(),
        Err(_) => String::new(),
    }
}

/// The settings after the portal's defaults are filled in where one of the
/// settings it runs by has no value, in the order it reads them; a portal
/// without a name is called "Chrono Portal" and a number.
pub open spec fn control_defaults(m: Map<Seq<char>, Seq<char>>, suffix: u8) -> Map<Seq<char>, Seq<char>> {
    let m1 = fill_setting(m, SETTING_SIGHTING_PERIOD@, numeral(DEFAULT_SIGHTING_PERIOD as nat, 10));
    let m2 = fill_setting(m1, SETTING_PORTAL_NAME@, "Chrono Portal "@ + numeral(suffix as nat, 10));
    let m3 = fill_setting(m2, SETTING_CHIP_TYPE@, DEFAULT_CHIP_TYPE@);
    let m4 = fill_setting(m3, SETTING_READ_WINDOW@, "20"@);
    let m5 = fill_setting(m4, SETTING_PLAY_SOUND@, "true"@);
    let m6 = fill_setting(m5, SETTING_VOLUME@, "1"@);
    let m7 = fill_setting(m6, SETTING_VOICE@, DEFAULT_VOICE@);
    let m8 = fill_setting(m7, SETTING_AUTO_REMOTE@, "false"@);
    let m9 = fill_setting(m8, SETTING_UPLOAD_INTERVAL@, "5"@);
    let m10 = fill_setting(m9, SETTING_NTFY_URL@, ""@);
    let m11 = fill_setting(m10, SETTING_NTFY_USER@, ""@);
    let m12 = fill_setting(m11, SETTING_NTFY_PASS@, ""@);
    let m13 = fill_setting(m12, SETTING_NTFY_TOPIC@, ""@);
    fill_setting(m13, SETTING_ENABLE_NTFY@, "false"@)
}

/// The names of the settings that hold numbers differ from the other setting names.
proof fn lemma_setting_names_differ()
    ensures
        SETTING_SIGHTING_PERIOD@ != SETTING_PORTAL_NAME@,
        SETTING_SIGHTING_PERIOD@ != SETTING_CHIP_TYPE@,
        SETTING_SIGHTING_PERIOD@ != SETTING_READ_WINDOW@,
        SETTING_SIGHTING_PERIOD@ != SETTING_PLAY_SOUND@,
        SETTING_SIGHTING_PERIOD@ != SETTING_VOLUME@,
        SETTING_SIGHTING_PERIOD@ != SETTING_VOICE@,
        SETTING_SIGHTING_PERIOD@ != SETTING_AUTO_REMOTE@,
        SETTING_SIGHTING_PERIOD@ != SETTING_UPLOAD_INTERVAL@,
        SETTING_SIGHTING_PERIOD@ != SETTING_NTFY_URL@,
        SETTING_SIGHTING_PERIOD@ != SETTING_NTFY_USER@,
        SETTING_SIGHTING_PERIOD@ != SETTING_NTFY_PASS@,
        SETTING_SIGHTING_PERIOD@ != SETTING_NTFY_TOPIC@,
        SETTING_SIGHTING_PERIOD@ != SETTING_ENABLE_NTFY@,
        SETTING_SIGHTING_PERIOD@ != SETTING_SCREEN_TYPE@,
        SETTING_READ_WINDOW@ != SETTING_PORTAL_NAME@,
        SETTING_READ_WINDOW@ != SETTING_CHIP_TYPE@,
        SETTING_READ_WINDOW@ != SETTING_PLAY_SOUND@,
        SETTING_READ_WINDOW@ != SETTING_VOLUME@,
        SETTING_READ_WINDOW@ != SETTING_VOICE@,
        SETTING_READ_WINDOW@ != SETTING_AUTO_REMOTE@,
        SETTING_READ_WINDOW@ != SETTING_UPLOAD_INTERVAL@,
        SETTING_READ_WINDOW@ != SETTING_NTFY_URL@,
        SETTING_READ_WINDOW@ != SETTING_NTFY_USER@,
        SETTING_READ_WINDOW@ != SETTING_NTFY_PASS@,
        SETTING_READ_WINDOW@ != SETTING_NTFY_TOPIC@,
        SETTING_READ_WINDOW@ != SETTING_ENABLE_NTFY@,
        SETTING_READ_WINDOW@ != SETTING_SCREEN_TYPE@,
        SETTING_UPLOAD_INTERVAL@ != SETTING_PORTAL_NAME@,
        SETTING_UPLOAD_INTERVAL@ != SETTING_CHIP_TYPE@,
        SETTING_UPLOAD_INTERVAL@ != SETTING_PLAY_SOUND@,
        SETTING_UPLOAD_INTERVAL@ != SETTING_VOLUME@,
        SETTING_UPLOAD_INTERVAL@ != SETTING_VOICE@,
        SETTING_UPLOAD_INTERVAL@ != SETTING_AUTO_REMOTE@,
        SETTING_UPLOAD_INTERVAL@ != SETTING_NTFY_URL@,
        SETTING_UPLOAD_INTERVAL@ != SETTING_NTFY_USER@,
        SETTING_UPLOAD_INTERVAL@ != SETTING_NTFY_PASS@,
        SETTING_UPLOAD_INTERVAL@ != SETTING_NTFY_TOPIC@,
        SETTING_UPLOAD_INTERVAL@ != SETTING_ENABLE_NTFY@,
        SETTING_UPLOAD_INTERVAL@ != SETTING_SCREEN_TYPE@,
{
    reveal_strlit("SETTING_SIGHTING_PERIOD");
    reveal_strlit("SETTING_PORTAL_NAME");
    reveal_strlit("SETTING_CHIP_TYPE");
    reveal_strlit("SETTING_READ_WINDOW");
    reveal_strlit("SETTING_PLAY_SOUND");
    reveal_strlit("SETTING_VOLUME");
    reveal_strlit("SETTING_VOICE");
    reveal_strlit("SETTING_AUTO_REMOTE");
    reveal_strlit("SETTING_UPLOAD_INTERVAL");
    reveal_strlit("SETTING_NTFY_URL");
    reveal_strlit("SETTING_NTFY_USER");
    reveal_strlit("SETTING_NTFY_PASS");
    reveal_strlit("SETTING_NTFY_TOPIC");
    reveal_strlit("SETTING_ENABLE_NTFY");
    reveal_strlit("SETTING_SCREEN_TYPE");
    assert(SETTING_SIGHTING_PERIOD@[8] != SETTING_UPLOAD_INTERVAL@[8]);
    assert(SETTING_SIGHTING_PERIOD@[9] != SETTING_SCREEN_TYPE@[9]);
    assert(SETTING_READ_WINDOW@[8] != SETTING_PORTAL_NAME@[8]);
    assert(SETTING_READ_WINDOW@[8] != SETTING_AUTO_REMOTE@[8]);
    assert(SETTING_READ_WINDOW@[8] != SETTING_ENABLE_NTFY@[8]);
    assert(SETTING_READ_WINDOW@[8] != SETTING_SCREEN_TYPE@[8]);
}

/// The numeral a default gives reads back as its number.
proof fn lemma_default_numerals()
    ensures
        unsigned_parse(numeral(DEFAULT_SIGHTING_PERIOD as nat, 10), u32::MAX as int) == Some(DEFAULT_SIGHTING_PERIOD as int),
        unsigned_parse("20"@, 255) == Some(20int),
        unsigned_parse("5"@, u64::MAX as int) == Some(5int),
{
    reveal_strlit("20");
    reveal_strlit("5");
    let empty = Seq::<char>::empty();
    assert(digits_value(empty) == 0);
    let two = seq!['2'];
    assert(two.drop_last() =~= empty);
    assert(digits_value(two) == 2);
    let twenty = "20"@;
    assert(twenty.drop_last() =~= two);
    assert(digits_value(twenty) == 20);
    assert(all_digits(twenty));
    let three = seq!['3'];
    assert(three.drop_last() =~= empty);
    assert(digits_value(three) == 3);
    let thirty = seq!['3', '0'];
    assert(thirty.drop_last() =~= three);
    assert(digits_value(thirty) == 30);
    assert(numeral(3, 10) == three);
    assert(numeral(30, 10) =~= thirty);
    assert(numeral(300, 10) =~= seq!['3', '0', '0']);
    let three_hundred = numeral(DEFAULT_SIGHTING_PERIOD as nat, 10);
    assert(three_hundred.drop_last() =~= thirty);
    assert(digits_value(three_hundred) == 300);
    assert(all_digits(three_hundred));
    let five = "5"@;
    assert(five.drop_last() =~= empty);
    assert(digits_value(five) == 5);
    assert(all_digits(five));
}

/// With the defaults filled in, every setting the portal runs by has a
/// usable value.
proof fn lemma_defaults_complete(m: Map<Seq<char>, Seq<char>>, suffix: u8)
    requires
        settings_usable(m),
    ensures
        settings_complete(control_defaults(m, suffix)),
{
    lemma_setting_names_differ();
    lemma_default_numerals();
    let sp = SETTING_SIGHTING_PERIOD@;
    let rw = SETTING_READ_WINDOW@;
    let ui = SETTING_UPLOAD_INTERVAL@;
    let m1 = fill_setting(m, sp, numeral(DEFAULT_SIGHTING_PERIOD as nat, 10));
    let m2 = fill_setting(m1, SETTING_PORTAL_NAME@, "Chrono Portal "@ + numeral(suffix as nat, 10));
    let m3 = fill_setting(m2, SETTING_CHIP_TYPE@, DEFAULT_CHIP_TYPE@);
    let m4 = fill_setting(m3, rw, "20"@);
    let m5 = fill_setting(m4, SETTING_PLAY_SOUND@, "true"@);
    let m6 = fill_setting(m5, SETTING_VOLUME@, "1"@);
    let m7 = fill_setting(m6, SETTING_VOICE@, DEFAULT_VOICE@);
    let m8 = fill_setting(m7, SETTING_AUTO_REMOTE@, "false"@);
    let m9 = fill_setting(m8, ui, "5"@);
    let m10 = fill_setting(m9, SETTING_NTFY_URL@, ""@);
    let m11 = fill_setting(m10, SETTING_NTFY_USER@, ""@);
    let m12 = fill_setting(m11, SETTING_NTFY_PASS@, ""@);
    let m13 = fill_setting(m12, SETTING_NTFY_TOPIC@, ""@);
    let w = fill_setting(m13, SETTING_ENABLE_NTFY@, "false"@);
    assert(w == control_defaults(m, suffix));
    assert(m1.contains_key(sp));
    assert(sighting_period_text_ok(m1));
    assert(m3[sp] == m1[sp]);
    assert(m8[sp] == m1[sp]);
    assert(w[sp] == m1[sp]);
    assert(m3.contains_key(rw) == m.contains_key(rw));
    assert(m.contains_key(rw) ==> m3[rw] == m[rw]);
    assert(m4.contains_key(rw));
    assert(m.contains_key(rw) ==> m4[rw] == m[rw]);
    assert(!m.contains_key(rw) ==> m4[rw] == "20"@);
    assert(read_window_text_ok(m4));
    assert(m9[rw] == m4[rw]);
    assert(w[rw] == m9[rw]);
    assert(m8.contains_key(ui) == m.contains_key(ui));
    assert(m.contains_key(ui) ==> m8[ui] == m[ui]);
    assert(m9.contains_key(ui));
    assert(upload_interval_text_ok(m9));
    assert(w[ui] == m9[ui]);
}

/// Whether the settings that hold numbers hold numbers that fit, where
/// they have a value: what reading the settings needs.
pub fn stored_numbers_fit(store: &MemStore) -> (r: bool)
    requires
        store.wf(),
    ensures
        r == settings_usable(store@.settings),
{
    let sp = match store.get_setting(SETTING_SIGHTING_PERIOD) {
        Ok(s) => parse_unsigned(s.Value().as_str(), u32::MAX as u64).is_some(),
        Err(_) => true,
    };
    let rw = match store.get_setting(SETTING_READ_WINDOW) {
        Ok(s) => parse_unsigned(s.Value().as_str(), 255).is_some(),
        Err(_) => true,
    };
    let ui = match store.get_setting(SETTING_UPLOAD_INTERVAL) {
        Ok(s) => parse_unsigned(s.Value().as_str(), u64::MAX).is_some(),
        Err(_) => true,
    };
    sp && rw && ui
}

impl Control {
    /// The settings the stored values say, where every one of them has a
    /// value and the numbers fit.
    pub fn from_settings(store: &MemStore) -> (r: Control)
        requires
            store.wf(),
            settings_complete(store@.settings),
        ensures
            r@ == control_spec(store@.settings),
    {
        let sighting_period = match parse_unsigned(stored_text(store, SETTING_SIGHTING_PERIOD).as_str(), u32::MAX as u64) {
            Some(v) => v as u32,
            None => 0,
        };
        let read_window = match parse_unsigned(stored_text(store, SETTING_READ_WINDOW).as_str(), 255) {
            Some(v) => v as u8,
            None => 0,
        };
        let upload_interval = match parse_unsigned(stored_text(store, SETTING_UPLOAD_INTERVAL).as_str(), u64::MAX) {
            Some(v) => v,
            None => 0,
        };
        let play_sound = is_true_text(stored_text(store, SETTING_PLAY_SOUND).as_str());
        let auto_remote = is_true_text(stored_text(store, SETTING_AUTO_REMOTE).as_str());
        let enable_ntfy = is_true_text(stored_text(store, SETTING_ENABLE_NTFY).as_str());
        Control {
            name: stored_text(store, SETTING_PORTAL_NAME),
            sighting_period,
            read_window,
            chip_type: stored_text(store, SETTING_CHIP_TYPE),
            play_sound,
            volume: stored_text(store, SETTING_VOLUME),
            voice: stored_text(store, SETTING_VOICE),
            auto_remote,
            upload_interval,
            ntfy_url: stored_text(store, SETTING_NTFY_URL),
            ntfy_user: stored_text(store, SETTING_NTFY_USER),
            ntfy_pass: stored_text(store, SETTING_NTFY_PASS),
            ntfy_topic: stored_text(store, SETTING_NTFY_TOPIC),
            enable_ntfy,
            battery: 0,
        }
    }

    /// Gives each setting the portal runs by that has no value its default,
    /// naming an unnamed portal with `suffix`, and reads them out of the store.
    pub fn new_with(store: &mut MemStore, suffix: u8) -> (r: Control)
        requires
            old(store).wf(),
            settings_usable(old(store)@.settings),
        ensures
            final(store).wf(),
            final(store)@.settings == control_defaults(old(store)@.settings, suffix),
            r@ == control_spec(final(store)@.settings),
            final(store)@.reads == old(store)@.reads,
            final(store)@.next_id == old(store)@.next_id,
            same_rows(final(store)@, old(store)@),
            same_sightings(final(store)@, old(store)@),
    {
        proof {
            reveal_strlit("");
        }
        let ghost m0 = store@.settings;
        store.ensure_setting(SETTING_SIGHTING_PERIOD, decimal(DEFAULT_SIGHTING_PERIOD as u128));
        let ghost m1 = store@.settings;
        let mut name = String::from_str("Chrono Portal ");
        name.append(decimal(suffix as u128).as_str());
        store.ensure_setting(SETTING_PORTAL_NAME, name);
        let ghost m2 = store@.settings;
        store.ensure_setting(SETTING_CHIP_TYPE, String::from_str(DEFAULT_CHIP_TYPE));
        let ghost m3 = store@.settings;
        store.ensure_setting(SETTING_READ_WINDOW, String::from_str("20"));
        let ghost m4 = store@.settings;
        store.ensure_setting(SETTING_PLAY_SOUND, String::from_str("true"));
        let ghost m5 = store@.settings;
        store.ensure_setting(SETTING_VOLUME, String::from_str("1"));
        let ghost m6 = store@.settings;
        store.ensure_setting(SETTING_VOICE, String::from_str(DEFAULT_VOICE));
        let ghost m7 = store@.settings;
        store.ensure_setting(SETTING_AUTO_REMOTE, String::from_str("false"));
        let ghost m8 = store@.settings;
        store.ensure_setting(SETTING_UPLOAD_INTERVAL, String::from_str("5"));
        let ghost m9 = store@.settings;
        store.ensure_setting(SETTING_NTFY_URL, String::from_str(""));
        let ghost m10 = store@.settings;
        store.ensure_setting(SETTING_NTFY_USER, String::from_str(""));
        let ghost m11 = store@.settings;
        store.ensure_setting(SETTING_NTFY_PASS, String::from_str(""));
        let ghost m12 = store@.settings;
        store.ensure_setting(SETTING_NTFY_TOPIC, String::from_str(""));
        let ghost m13 = store@.settings;
        store.ensure_setting(SETTING_ENABLE_NTFY, String::from_str("false"));
        proof {
            assert(store@.settings == control_defaults(m0, suffix));
            lemma_defaults_complete(m0, suffix);
        }
        Control::from_settings(store)
    }

    /// Reads the settings out of the store, first giving each that has no
    /// value its default (an unnamed portal gets a random number in its name).
    pub fn new(store: &mut MemStore) -> (r: Result<Control, DBError>)
        requires
            old(store).wf(),
            settings_usable(old(store)@.settings),
        ensures
            final(store).wf(),
            exists|suffix: u8| final(store)@.settings == control_defaults(old(store)@.settings, suffix),
            r matches Ok(c) && c@ == control_spec(final(store)@.settings),
            final(store)@.reads == old(store)@.reads,
            final(store)@.next_id == old(store)@.next_id,
            same_rows(final(store)@, old(store)@),
            same_sightings(final(store)@, old(store)@),
    {
        let suffix = random_byte();
        Ok(Control::new_with(store, suffix))
    }

    /// Takes on the settings of `new_control`; the battery charge stays.
    pub fn update(&mut self, new_control: Control) -> (r: Result<(), ()>)
        ensures
            r is Ok,
            final(self)@ == (ControlView { battery: old(self)@.battery, ..new_control@ }),
    {
        let battery = self.battery;
        *self = new_control;
        self.battery = battery;
        Ok(())
    }
}

} // verus!
