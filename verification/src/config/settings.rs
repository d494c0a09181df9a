use vstd::prelude::*;

use crate::config::key_names::{KeyName, lower_ascii, lower_text};
use crate::config::skins::{
    PaletteValue, builtin_colors, load_builtin_skin_palettes, palettes_value, spec_load_palettes,
};
use crate::game::game_state::BagMode;
use crate::game::piece::{DEFAULT_BOARD_WIDTH, DEFAULT_HIDDEN_ROWS, DEFAULT_VISIBLE_HEIGHT};
use crate::game::text::str_chars;

verus! {

/// The bag mode as it is saved.
#[derive(Debug, Clone, Copy, PartialEq, Eq, Structural)]
pub enum PersistedBagMode {
    SevenBag,
    FourteenBag,
    Random,
}

impl Default for PersistedBagMode {
    fn default() -> (r: Self)
        ensures
            r == PersistedBagMode::SevenBag,
    {
        PersistedBagMode::SevenBag
    }
}

/// The saved form of a bag mode.
pub open spec fn persisted_bag_mode(value: BagMode) -> PersistedBagMode {
    match value {
        BagMode::SevenBag => PersistedBagMode::SevenBag,
        BagMode::FourteenBag => PersistedBagMode::FourteenBag,
        BagMode::Random => PersistedBagMode::Random,
    }
}

impl From<BagMode> for PersistedBagMode {
    fn from(value: BagMode) -> (r: Self) {
        match value {
            BagMode::SevenBag => PersistedBagMode::SevenBag,
            BagMode::FourteenBag => PersistedBagMode::FourteenBag,
            BagMode::Random => PersistedBagMode::Random,
        }
    }
}

impl vstd::std_specs::convert::FromSpecImpl<BagMode> for PersistedBagMode {
    open spec fn obeys_from_spec() -> bool {
        true
    }

    open spec fn from_spec(v: BagMode) -> Self {
        persisted_bag_mode(v)
    }
}

/// Which colour theme the interface uses.
#[derive(Debug, Clone, Copy, PartialEq, Eq, Structural)]
pub enum ThemeMode {
    Auto,
    Light,
    Dark,
}

impl Default for ThemeMode {
    fn default() -> (r: Self)
        ensures
            r == ThemeMode::Auto,
    {
        ThemeMode::Auto
    }
}

/// The keys bound to each action.
#[derive(Debug, Clone, PartialEq, Eq)]
pub struct KeyBindings {
    pub pause: KeyName,
    pub reset_training: KeyName,
    pub reset_cheese: KeyName,
    pub reset_four_wide: KeyName,
    pub reset_perfect_clear: KeyName,
    pub reset_master: KeyName,
    pub screenshot: KeyName,
    pub move_left: KeyName,
    pub move_right: KeyName,
    pub soft_drop: KeyName,
    pub hard_drop: Vec<KeyName>,
    pub rotate_ccw: KeyName,
    pub rotate_cw: KeyName,
    pub rotate_180: KeyName,
    pub hold: KeyName,
    pub hold_with_shift: bool,
    pub undo: KeyName,
    pub redo: KeyName,
}

/// The keys that hard-drop by default.
pub open spec fn default_hard_drop() -> Seq<KeyName> {
    seq![KeyName::Up, KeyName::Space]
}

fn default_pause_key() -> (r: KeyName)
    ensures
        r == KeyName::Escape,
{
    KeyName::Escape
}

fn default_reset_training_key() -> (r: KeyName)
    ensures
        r == KeyName::F1,
{
    KeyName::F1
}

fn default_reset_cheese_key() -> (r: KeyName)
    ensures
        r == KeyName::F2,
{
    KeyName::F2
}

fn default_reset_four_wide_key() -> (r: KeyName)
    ensures
        r == KeyName::F3,
{
    KeyName::F3
}

fn default_reset_perfect_clear_key() -> (r: KeyName)
    ensures
        r == KeyName::F4,
{
    KeyName::F4
}

fn default_reset_master_key() -> (r: KeyName)
    ensures
        r == KeyName::F5,
{
    KeyName::F5
}

fn default_screenshot_key() -> (r: KeyName)
    ensures
        r == KeyName::F6,
{
    KeyName::F6
}

fn default_move_left_key() -> (r: KeyName)
    ensures
        r == KeyName::Left,
{
    KeyName::Left
}

fn default_move_right_key() -> (r: KeyName)
    ensures
        r == KeyName::Right,
{
    KeyName::Right
}

fn default_soft_drop_key() -> (r: KeyName)
    ensures
        r == KeyName::Down,
{
    KeyName::Down
}

fn default_hard_drop_keys() -> (r: Vec<KeyName>)
    ensures
        r@ == default_hard_drop(),
{
    let r = vec![KeyName::Up, KeyName::Space];
    assert(r@ =~= default_hard_drop());
    r
}

fn default_rotate_ccw_key() -> (r: KeyName)
    ensures
        r == KeyName::Z,
{
    KeyName::Z
}

fn default_rotate_cw_key() -> (r: KeyName)
    ensures
        r == KeyName::X,
{
    KeyName::X
}

fn default_rotate_180_key() -> (r: KeyName)
    ensures
        r == KeyName::A,
{
    KeyName::A
}

fn default_hold_key() -> (r: KeyName)
    ensures
        r == KeyName::C,
{
    KeyName::C
}

fn default_undo_key() -> (r: KeyName)
    ensures
        r == KeyName::Z,
{
    KeyName::Z
}

fn default_redo_key() -> (r: KeyName)
    ensures
        r == KeyName::Y,
{
    KeyName::Y
}

/// Whether `b` holds the default bindings.
pub open spec fn default_bindings(b: KeyBindings) -> bool {
    &&& b.pause == KeyName::Escape
    &&& b.reset_training == KeyName::F1
    &&& b.reset_cheese == KeyName::F2
    &&& b.reset_four_wide == KeyName::F3
    &&& b.reset_perfect_clear == KeyName::F4
    &&& b.reset_master == KeyName::F5
    &&& b.screenshot == KeyName::F6
    &&& b.move_left == KeyName::Left
    &&& b.move_right == KeyName::Right
    &&& b.soft_drop == KeyName::Down
    &&& b.hard_drop@ == default_hard_drop()
    &&& b.rotate_ccw == KeyName::Z
    &&& b.rotate_cw == KeyName::X
    &&& b.rotate_180 == KeyName::A
    &&& b.hold == KeyName::C
    &&& !b.hold_with_shift
    &&& b.undo == KeyName::Z
    &&& b.redo == KeyName::Y
}

impl Default for KeyBindings {
    fn default() -> (r: Self)
        ensures
            default_bindings(r),
    {
        KeyBindings {
            pause: default_pause_key(),
            reset_training: default_reset_training_key(),
            reset_cheese: default_reset_cheese_key(),
            reset_four_wide: default_reset_four_wide_key(),
            reset_perfect_clear: default_reset_perfect_clear_key(),
            reset_master: default_reset_master_key(),
            screenshot: default_screenshot_key(),
            move_left: default_move_left_key(),
            move_right: default_move_right_key(),
            soft_drop: default_soft_drop_key(),
            hard_drop: default_hard_drop_keys(),
            rotate_ccw: default_rotate_ccw_key(),
            rotate_cw: default_rotate_cw_key(),
            rotate_180: default_rotate_180_key(),
            hold: default_hold_key(),
            hold_with_shift: false,
            undo: default_undo_key(),
            redo: default_redo_key(),
        }
    }
}

/// The settings of the game.
#[derive(Debug, Clone, PartialEq, Eq)]
pub struct AppConfig {
    pub show_ghost: bool,
    pub volume_percent: u8,
    pub selected_skin: String,
    pub selected_texture: String,
    pub das_ms: u32,
    pub arr_ms: u32,
    pub sdd_ms: u32,
    pub sds_ms: u32,
    pub das_cancel: bool,
    pub board_width: usize,
    pub board_visible_height: usize,
    pub board_hidden_rows: usize,
    pub board_cell_size: u16,
    pub preview_cell_size: u16,
    pub infinite_hold: bool,
    pub auto_color: bool,
    pub auto_lock_on_ground: bool,
    pub mirror_queue: bool,
    pub highlight_clear: bool,
    pub colored_ghost: bool,
    pub ghost_opacity_percent: u8,
    pub grid_brightness: u8,
    pub static_bag: bool,
    pub bag_mode: PersistedBagMode,
    pub theme: ThemeMode,
    pub bindings: KeyBindings,
}

/// Whether `c` holds the default settings.
pub open spec fn default_config(c: AppConfig) -> bool {
    &&& c.show_ghost
    &&& c.volume_percent == 70
    &&& c.selected_skin@ == "default"@
    &&& c.selected_texture@ == "rounded-square.png"@
    &&& c.das_ms == 133
    &&& c.arr_ms == 16
    &&& c.sdd_ms == 67
    &&& c.sds_ms == 16
    &&& c.das_cancel
    &&& c.board_width == DEFAULT_BOARD_WIDTH
    &&& c.board_visible_height == DEFAULT_VISIBLE_HEIGHT
    &&& c.board_hidden_rows == DEFAULT_HIDDEN_ROWS
    &&& c.board_cell_size == 30
    &&& c.preview_cell_size == 14
    &&& c.infinite_hold
    &&& !c.auto_color
    &&& !c.auto_lock_on_ground
    &&& !c.mirror_queue
    &&& !c.highlight_clear
    &&& !c.colored_ghost
    &&& c.ghost_opacity_percent == 22
    &&& c.grid_brightness == 0
    &&& !c.static_bag
    &&& c.bag_mode == PersistedBagMode::SevenBag
    &&& c.theme == ThemeMode::Auto
    &&& default_bindings(c.bindings)
}

impl Default for AppConfig {
    fn default() -> (r: Self)
        ensures
            default_config(r),
    {
        AppConfig {
            show_ghost: true,
            volume_percent: 70,
            selected_skin: "default".to_owned(),
            selected_texture: "rounded-square.png".to_owned(),
            das_ms: 133,
            arr_ms: 16,
            sdd_ms: 67,
            sds_ms: 16,
            das_cancel: true,
            board_width: DEFAULT_BOARD_WIDTH,
            board_visible_height: DEFAULT_VISIBLE_HEIGHT,
            board_hidden_rows: DEFAULT_HIDDEN_ROWS,
            board_cell_size: 30,
            preview_cell_size: 14,
            infinite_hold: true,
            auto_color: false,
            auto_lock_on_ground: false,
            mirror_queue: false,
            highlight_clear: false,
            colored_ghost: false,
            ghost_opacity_percent: 22,
            grid_brightness: 0,
            static_bag: false,
            bag_mode: PersistedBagMode::default(),
            theme: ThemeMode::default(),
            bindings: KeyBindings::default(),
        }
    }
}

/// The smaller of a value and 100.
pub open spec fn at_most_hundred(v: u8) -> u8 {
    if v > 100 {
        100
    } else {
        v
    }
}

/// The settings `old` gives once out-of-range values are put back in range,
/// apart from the hard-drop keys.
pub open spec fn clamped(old: AppConfig) -> AppConfig {
    AppConfig {
        volume_percent: at_most_hundred(old.volume_percent),
        board_width: if old.board_width == 0 {
            DEFAULT_BOARD_WIDTH
        } else {
            old.board_width
        },
        board_visible_height: if old.board_visible_height == 0 {
            DEFAULT_VISIBLE_HEIGHT
        } else {
            old.board_visible_height
        },
        board_hidden_rows: if old.board_hidden_rows > 8 {
            DEFAULT_HIDDEN_ROWS
        } else {
            old.board_hidden_rows
        },
        ghost_opacity_percent: at_most_hundred(old.ghost_opacity_percent),
        grid_brightness: at_most_hundred(old.grid_brightness),
        board_cell_size: if old.board_cell_size == 0 {
            28
        } else {
            old.board_cell_size
        },
        preview_cell_size: if old.preview_cell_size == 0 {
            14
        } else {
            old.preview_cell_size
        },
        ..old
    }
}

/// Whether `new` is `old` with its out-of-range values put back in range
/// and, where it has no hard-drop key, the default ones.
pub open spec fn normalized_from(old: AppConfig, new: AppConfig) -> bool {
    if old.bindings.hard_drop@.len() > 0 {
        new == clamped(old)
    } else {
        &&& new == AppConfig {
            bindings: KeyBindings { hard_drop: new.bindings.hard_drop, ..old.bindings },
            ..clamped(old)
        }
        &&& new.bindings.hard_drop@ == default_hard_drop()
    }
}

impl AppConfig {
    /// Puts out-of-range settings back in range: volume, ghost opacity and
    /// grid brightness at most 100, a zero board size or cell size and more
    /// than eight hidden rows back to their defaults, and the default
    /// hard-drop keys where none is bound.
    pub fn normalize(&mut self)
        ensures
            normalized_from(*old(self), *final(self)),
    {
        let mut c = AppConfig::default();
        std::mem::swap(&mut c, self);
        *self = normalized(c);
    }
}

/// The settings `c` with out-of-range values put back in range.
fn normalized(c: AppConfig) -> (r: AppConfig)
    ensures
        normalized_from(c, r),
{
    let AppConfig {
        show_ghost,
        volume_percent,
        selected_skin,
        selected_texture,
        das_ms,
        arr_ms,
        sdd_ms,
        sds_ms,
        das_cancel,
        board_width,
        board_visible_height,
        board_hidden_rows,
        board_cell_size,
        preview_cell_size,
        infinite_hold,
        auto_color,
        auto_lock_on_ground,
        mirror_queue,
        highlight_clear,
        colored_ghost,
        ghost_opacity_percent,
        grid_brightness,
        static_bag,
        bag_mode,
        theme,
        bindings,
    } = c;
    let mut bindings = bindings;
    if bindings.hard_drop.len() == 0 {
        bindings.hard_drop = default_hard_drop_keys();
    }
    AppConfig {
        show_ghost,
        volume_percent: if volume_percent > 100 {
            100
        } else {
            volume_percent
        },
        selected_skin,
        selected_texture,
        das_ms,
        arr_ms,
        sdd_ms,
        sds_ms,
        das_cancel,
        board_width: if board_width == 0 {
            DEFAULT_BOARD_WIDTH
        } else {
            board_width
        },
        board_visible_height: if board_visible_height == 0 {
            DEFAULT_VISIBLE_HEIGHT
        } else {
            board_visible_height
        },
        board_hidden_rows: if board_hidden_rows > 8 {
            DEFAULT_HIDDEN_ROWS
        } else {
            board_hidden_rows
        },
        board_cell_size: if board_cell_size == 0 {
            28
        } else {
            board_cell_size
        },
        preview_cell_size: if preview_cell_size == 0 {
            14
        } else {
            preview_cell_size
        },
        infinite_hold,
        auto_color,
        auto_lock_on_ground,
        mirror_queue,
        highlight_clear,
        colored_ghost,
        ghost_opacity_percent: if ghost_opacity_percent > 100 {
            100
        } else {
            ghost_opacity_percent
        },
        grid_brightness: if grid_brightness > 100 {
            100
        } else {
            grid_brightness
        },
        static_bag,
        bag_mode,
        theme,
        bindings,
    }
}

/// Normalizing settings a second time changes nothing.
pub proof fn law_normalize_idempotent(a: AppConfig, b: AppConfig, c: AppConfig)
    requires
        normalized_from(a, b),
        normalized_from(b, c),
    ensures
        c == b,
{
    assert(b.bindings.hard_drop@.len() > 0);
    assert(clamped(b) == b);
}

/// Normalized settings lie in range.
pub proof fn law_normalized_in_range(a: AppConfig, b: AppConfig)
    requires
        normalized_from(a, b),
    ensures
        b.volume_percent <= 100,
        b.ghost_opacity_percent <= 100,
        b.grid_brightness <= 100,
        b.board_width > 0,
        b.board_visible_height > 0,
        b.board_hidden_rows <= 8,
        b.board_cell_size > 0,
        b.preview_cell_size > 0,
        b.bindings.hard_drop@.len() > 0,
{
}

/// Whether `a` comes strictly before `b` in character order.
#[verifier::opaque]
pub open spec fn text_before(a: Seq<char>, b: Seq<char>) -> bool
    decreases a.len(),
{
    if a.len() == 0 {
        b.len() > 0
    } else if b.len() == 0 {
        false
    } else if a[0] != b[0] {
        a[0] < b[0]
    } else {
        text_before(a.drop_first(), b.drop_first())
    }
}

/// No text comes before itself.
pub proof fn lemma_text_before_irreflexive(a: Seq<char>)
    ensures
        !text_before(a, a),
    decreases a.len(),
{
    reveal(text_before);
    if a.len() > 0 {
        lemma_text_before_irreflexive(a.drop_first());
    }
}

/// Character order is transitive.
pub proof fn lemma_text_before_transitive(a: Seq<char>, b: Seq<char>, c: Seq<char>)
    requires
        text_before(a, b),
        text_before(b, c),
    ensures
        text_before(a, c),
    decreases a.len(),
{
    reveal(text_before);
    if a.len() > 0 && b.len() > 0 && c.len() > 0 && a[0] == b[0] && b[0] == c[0] {
        lemma_text_before_transitive(a.drop_first(), b.drop_first(), c.drop_first());
    }
}

/// Of two different texts, one comes before the other.
pub proof fn lemma_text_before_total(a: Seq<char>, b: Seq<char>)
    requires
        a != b,
    ensures
        text_before(a, b) || text_before(b, a),
    decreases a.len(),
{
    reveal(text_before);
    if a.len() == 0 && b.len() == 0 {
        assert(a =~= b);
    }
    if a.len() > 0 && b.len() > 0 && a[0] == b[0] {
        assert(a =~= seq![a[0]] + a.drop_first());
        assert(b =~= seq![b[0]] + b.drop_first());
        lemma_text_before_total(a.drop_first(), b.drop_first());
    }
}

/// Whether `a` comes before `b` in character order.
fn text_less(a: &Vec<char>, b: &Vec<char>) -> (r: bool)
    ensures
        r == text_before(a@, b@),
{
    reveal(text_before);
    let mut i: usize = 0;
    assert(a@.subrange(0, a@.len() as int) =~= a@);
    assert(b@.subrange(0, b@.len() as int) =~= b@);
    while i < a.len() && i < b.len()
        invariant
            i <= a@.len(),
            i <= b@.len(),
            text_before(a@, b@) == text_before(
                a@.subrange(i as int, a@.len() as int),
                b@.subrange(i as int, b@.len() as int),
            ),
        decreases a@.len() - i,
    {
        proof {
            reveal(text_before);
        }
        let ghost sa = a@.subrange(i as int, a@.len() as int);
        let ghost sb = b@.subrange(i as int, b@.len() as int);
        assert(sa.len() > 0 && sb.len() > 0 && sa[0] == a@[i as int] && sb[0] == b@[i as int]);
        if a[i] != b[i] {
            return a[i] < b[i];
        }
        assert(sa.drop_first() =~= a@.subrange(i + 1, a@.len() as int));
        assert(sb.drop_first() =~= b@.subrange(i + 1, b@.len() as int));
        i += 1;
    }
    let ghost sa = a@.subrange(i as int, a@.len() as int);
    let ghost sb = b@.subrange(i as int, b@.len() as int);
    assert(sa.len() == 0 || sb.len() == 0);
    i < b.len()
}

/// The characters of `s` in ASCII lower case.
fn lower_key(s: &String) -> (r: Vec<char>)
    ensures
        r@ == lower_text(s@),
{
    let chars = str_chars(s.as_str());
    let mut r: Vec<char> = Vec::new();
    let mut i: usize = 0;
    while i < chars.len()
        invariant
            chars@ == s@,
            i <= chars@.len(),
            r@ == lower_text(chars@).subrange(0, i as int),
        decreases chars@.len() - i,
    {
        let c = chars[i];
        let l = if 'A' <= c && c <= 'Z' {
            ((c as u32) + 32) as u8 as char
        } else {
            c
        };
        assert(l == lower_ascii(c));
        r.push(l);
        i += 1;
        assert(r@ =~= lower_text(chars@).subrange(0, i as int));
    }
    assert(lower_text(chars@).subrange(0, chars@.len() as int) =~= lower_text(chars@));
    r
}

/// The texts of a list of strings.
pub open spec fn texts(v: Seq<String>) -> Seq<Seq<char>> {
    v.map_values(|s: String| s@)
}

/// Adding a string adds its text.
proof fn lemma_texts_push(v: Seq<String>, x: String)
    ensures
        texts(v.push(x)) == texts(v).push(x@),
{
    assert(texts(v.push(x)) =~= texts(v).push(x@));
}

/// The form by which skin names are ordered and told apart: the name in
/// ASCII lower case.
#[verifier::opaque]
pub open spec fn skin_key(name: Seq<char>) -> Seq<char> {
    lower_text(name)
}

/// Whether `names[k]` is the first of `names` with its lower-case form.
pub open spec fn first_of_its_key(names: Seq<Seq<char>>, k: int) -> bool {
    &&& 0 <= k < names.len()
    &&& forall|j: int| 0 <= j < k ==> skin_key(#[trigger] names[j]) != skin_key(names[k])
}

/// Whether `name` is the first of `names` with its lower-case form.
pub open spec fn taken_first(names: Seq<Seq<char>>, name: Seq<char>) -> bool {
    exists|k: int| first_of_its_key(names, k) && names[k] == name
}

/// Whether `list` holds a name with the lower-case form of `name`.
pub open spec fn listed_form(list: Seq<Seq<char>>, name: Seq<char>) -> bool {
    exists|a: int| 0 <= a < list.len() && skin_key(list[a]) == skin_key(name)
}

/// Whether `list` is `names` ordered by lower-case form, keeping of the
/// names that are equal up to ASCII case only the first.
pub open spec fn sorted_unique_names(names: Seq<Seq<char>>, list: Seq<Seq<char>>) -> bool {
    &&& forall|a: int, b: int|
        0 <= a < b < list.len() ==> text_before(
            skin_key(#[trigger] list[a]),
            skin_key(#[trigger] list[b]),
        )
    &&& forall|a: int| 0 <= a < list.len() ==> #[trigger] taken_first(names, list[a])
    &&& forall|k: int| 0 <= k < names.len() ==> #[trigger] listed_form(list, names[k])
}

/// What the names taken so far (the first `i` of `names`) give: `list`
/// holds their lower-case forms once each, in order, each by its first name
/// (`list[a]` is `names[origin[a]]`; `names[k]` has the form of
/// `list[place[k]]`).
pub open spec fn names_taken(
    names: Seq<Seq<char>>,
    i: int,
    list: Seq<Seq<char>>,
    origin: Seq<int>,
    place: Seq<int>,
) -> bool {
    &&& forall|a: int, b: int|
        0 <= a < b < list.len() ==> text_before(
            skin_key(#[trigger] list[a]),
            skin_key(#[trigger] list[b]),
        )
    &&& origin.len() == list.len()
    &&& forall|a: int|
        0 <= a < list.len() ==> {
            let k = #[trigger] origin[a];
            &&& 0 <= k < i
            &&& first_of_its_key(names, k)
            &&& names[k] == list[a]
        }
    &&& place.len() == i
    &&& forall|k: int|
        0 <= k < i ==> {
            let a = #[trigger] place[k];
            &&& 0 <= a < list.len()
            &&& skin_key(list[a]) == skin_key(names[k])
        }
}

/// A name whose lower-case form is already listed adds nothing.
proof fn lemma_name_known(
    names: Seq<Seq<char>>,
    i: int,
    list: Seq<Seq<char>>,
    origin: Seq<int>,
    place: Seq<int>,
    p: int,
)
    requires
        names_taken(names, i, list, origin, place),
        0 <= i < names.len(),
        0 <= p < list.len(),
        skin_key(list[p]) == skin_key(names[i]),
    ensures
        names_taken(names, i + 1, list, origin, place.push(p)),
{
    let np = place.push(p);
    assert forall|k: int| 0 <= k < i + 1 implies {
        let a = #[trigger] np[k];
        &&& 0 <= a < list.len()
        &&& skin_key(list[a]) == skin_key(names[k])
    } by {
        if k < i {
            assert(np[k] == place[k]);
        }
    }
}

/// A name with a new lower-case form goes in at its place in order.
proof fn lemma_name_inserted(
    names: Seq<Seq<char>>,
    i: int,
    list: Seq<Seq<char>>,
    origin: Seq<int>,
    place: Seq<int>,
    p: int,
)
    requires
        names_taken(names, i, list, origin, place),
        0 <= i < names.len(),
        0 <= p <= list.len(),
        forall|a: int| 0 <= a < p ==> text_before(skin_key(#[trigger] list[a]), skin_key(names[i])),
        p < list.len() ==> skin_key(list[p]) != skin_key(names[i]) && !text_before(
            skin_key(list[p]),
            skin_key(names[i]),
        ),
    ensures
        names_taken(
            names,
            i + 1,
            list.insert(p, names[i]),
            origin.insert(p, i),
            Seq::new((i + 1) as nat, |k: int| if k == i { p } else if place[k] >= p { place[k] + 1 } else { place[k] }),
        ),
{
    let key = skin_key(names[i]);
    let next = list.insert(p, names[i]);
    let norigin = origin.insert(p, i);
    let nplace = Seq::new((i + 1) as nat, |k: int| if k == i { p } else if place[k] >= p { place[k] + 1 } else { place[k] });
    list.insert_ensures(p, names[i]);
    origin.insert_ensures(p, i);
    if p < list.len() {
        lemma_text_before_total(skin_key(list[p]), key);
    }
    assert forall|a: int| p <= a < list.len() implies text_before(key, skin_key(#[trigger] list[a])) by {
        if a > p {
            lemma_text_before_transitive(key, skin_key(list[p]), skin_key(list[a]));
        }
    }
    assert forall|a: int| 0 <= a < list.len() implies skin_key(#[trigger] list[a]) != key by {
        lemma_text_before_irreflexive(key);
    }
    assert forall|j: int| 0 <= j < i implies skin_key(#[trigger] names[j]) != key by {
        let a = place[j];
        assert(skin_key(list[a]) != key);
    }
    assert(first_of_its_key(names, i));
    assert forall|a: int, b: int| 0 <= a < b < next.len() implies text_before(
        skin_key(#[trigger] next[a]),
        skin_key(#[trigger] next[b]),
    ) by {
        if b < p {
            assert(next[a] == list[a] && next[b] == list[b]);
        } else if b == p {
            assert(next[a] == list[a]);
        } else if a < p {
            assert(next[a] == list[a]);
            assert(next[(b - 1) + 1] == list[b - 1]);
            lemma_text_before_transitive(skin_key(list[a]), key, skin_key(list[b - 1]));
        } else if a == p {
            assert(next[(b - 1) + 1] == list[b - 1]);
        } else {
            assert(next[(a - 1) + 1] == list[a - 1]);
            assert(next[(b - 1) + 1] == list[b - 1]);
        }
    }
    assert forall|a: int| 0 <= a < next.len() implies {
        let k = #[trigger] norigin[a];
        &&& 0 <= k < i + 1
        &&& first_of_its_key(names, k)
        &&& names[k] == next[a]
    } by {
        if a < p {
            assert(next[a] == list[a] && norigin[a] == origin[a]);
        } else if a > p {
            assert(next[(a - 1) + 1] == list[a - 1]);
            assert(norigin[(a - 1) + 1] == origin[a - 1]);
        }
    }
    assert forall|k: int| 0 <= k < i + 1 implies {
        let a = #[trigger] nplace[k];
        &&& 0 <= a < next.len()
        &&& skin_key(next[a]) == skin_key(names[k])
    } by {
        if k < i {
            let a = place[k];
            if a < p {
                assert(next[a] == list[a]);
            } else {
                assert(next[a + 1] == list[a]);
            }
        }
    }
}

/// Once every name is taken, the list is the ordered list of names.
proof fn lemma_all_names_taken(names: Seq<Seq<char>>, list: Seq<Seq<char>>, origin: Seq<int>, place: Seq<int>)
    requires
        names_taken(names, names.len() as int, list, origin, place),
    ensures
        sorted_unique_names(names, list),
{
    assert forall|a: int| 0 <= a < list.len() implies #[trigger] taken_first(names, list[a]) by {
        let k = origin[a];
        assert(first_of_its_key(names, k) && names[k] == list[a]);
    }
    assert forall|k: int| 0 <= k < names.len() implies #[trigger] listed_form(list, names[k]) by {
        let a = place[k];
        assert(0 <= a < list.len() && skin_key(list[a]) == skin_key(names[k]));
    }
}

/// The names ordered by lower-case form, keeping of the names that are
/// equal up to ASCII case only the first.
pub fn sorted_skin_names(names: Vec<String>) -> (r: Vec<String>)
    ensures
        sorted_unique_names(texts(names@), texts(r@)),
{
    let ghost nv = texts(names@);
    let mut list: Vec<String> = Vec::new();
    let mut keys: Vec<Vec<char>> = Vec::new();
    let ghost mut origin: Seq<int> = Seq::empty();
    let ghost mut place: Seq<int> = Seq::empty();
    let mut i: usize = 0;
    while i < names.len()
        invariant
            nv == texts(names@),
            i <= names@.len(),
            keys@.len() == list@.len(),
            forall|a: int| 0 <= a < keys@.len() ==> #[trigger] keys@[a]@ == skin_key(list@[a]@),
            names_taken(nv, i as int, texts(list@), origin, place),
        decreases names@.len() - i,
    {
        let key = lower_key(&names[i]);
        assert(key@ == skin_key(nv[i as int])) by {
            reveal(skin_key);
        }
        let mut p: usize = 0;
        while p < keys.len() && text_less(&keys[p], &key)
            invariant
                p <= keys@.len(),
                forall|a: int| 0 <= a < p ==> text_before(#[trigger] keys@[a]@, key@),
            decreases keys@.len() - p,
        {
            p += 1;
        }
        let ghost lv = texts(list@);
        if p < keys.len() && crate::game::text::same_chars(&keys[p], &key) {
            proof {
                assert(keys@[p as int]@ == skin_key(lv[p as int]));
                lemma_name_known(nv, i as int, lv, origin, place, p as int);
                place = place.push(p as int);
            }
        } else {
            proof {
                assert forall|a: int| 0 <= a < p implies text_before(
                    skin_key(#[trigger] lv[a]),
                    skin_key(nv[i as int]),
                ) by {
                    assert(keys@[a]@ == skin_key(lv[a]));
                }
                if p < keys@.len() {
                    assert(keys@[p as int]@ == skin_key(lv[p as int]));
                }
                lemma_name_inserted(nv, i as int, lv, origin, place, p as int);
            }
            let name = names[i].clone();
            let ghost old_list = list@;
            let ghost old_keys = keys@;
            list.insert(p, name);
            keys.insert(p, key);
            proof {
                old_list.insert_ensures(p as int, name);
                old_keys.insert_ensures(p as int, key);
                assert(texts(list@) =~= lv.insert(p as int, nv[i as int]));
                let ghost old_place = place;
                origin = origin.insert(p as int, i as int);
                place = Seq::new(
                    (i + 1) as nat,
                    |k: int| if k == i { p as int } else if old_place[k] >= p { old_place[k] + 1 } else { old_place[k] },
                );
                assert forall|a: int| 0 <= a < keys@.len() implies #[trigger] keys@[a]@ == skin_key(
                    list@[a]@,
                ) by {
                    if a < p {
                        assert(keys@[a] == old_keys[a] && list@[a] == old_list[a]);
                    } else if a > p {
                        assert(keys@[(a - 1) + 1] == old_keys[a - 1]);
                        assert(list@[(a - 1) + 1] == old_list[a - 1]);
                    }
                }
            }
        }
        i += 1;
    }
    proof {
        lemma_all_names_taken(texts(names@), texts(list@), origin, place);
    }
    list
}

/// The names of the palettes that ship with the game.
pub open spec fn builtin_skin_names() -> Seq<Seq<char>> {
    match spec_load_palettes(builtin_colors()) {
        Ok(ps) => palette_names(ps),
        Err(_) => Seq::empty(),
    }
}

/// The names of palettes.
pub open spec fn palette_names(ps: Seq<PaletteValue>) -> Seq<Seq<char>> {
    ps.map_values(|p: PaletteValue| p.0)
}

impl AppConfig {
    /// The skins to choose from: those that ship with the game, then those
    /// `installed` from the skin folders, ordered by lower-case name with one
    /// name for each (the first); the default skin where there is none.
    pub fn available_skins(installed: Vec<String>) -> (r: Vec<String>)
        ensures
            ({
                let all = builtin_skin_names() + texts(installed@);
                if all.len() == 0 {
                    texts(r@) == seq!["default"@]
                } else {
                    sorted_unique_names(all, texts(r@))
                }
            }),
    {
        let mut names: Vec<String> = Vec::new();
        match load_builtin_skin_palettes() {
            Ok(palettes) => {
                let ghost pv = palettes_value(palettes@);
                let mut k: usize = 0;
                while k < palettes.len()
                    invariant
                        pv == palettes_value(palettes@),
                        k <= palettes@.len(),
                        texts(names@) =~= palette_names(pv).subrange(0, k as int),
                    decreases palettes@.len() - k,
                {
                    assert(pv[k as int].0 == palettes@[k as int].name@);
                    let name = palettes[k].name.clone();
                    proof {
                        lemma_texts_push(names@, name);
                    }
                    names.push(name);
                    k += 1;
                    assert(texts(names@) =~= palette_names(pv).subrange(0, k as int));
                }
            },
            Err(_) => {},
        }
        let ghost builtin = texts(names@);
        assert(builtin =~= builtin_skin_names());
        let mut j: usize = 0;
        while j < installed.len()
            invariant
                j <= installed@.len(),
                texts(names@) =~= builtin + texts(installed@).subrange(0, j as int),
            decreases installed@.len() - j,
        {
            let name = installed[j].clone();
            proof {
                lemma_texts_push(names@, name);
            }
            names.push(name);
            j += 1;
            assert(texts(names@) =~= builtin + texts(installed@).subrange(0, j as int));
        }
        assert(texts(installed@).subrange(0, installed@.len() as int) =~= texts(installed@));
        let ghost all = texts(names@);
        assert(all =~= builtin_skin_names() + texts(installed@));
        let mut skins = sorted_skin_names(names);
        proof {
            if skins@.len() > 0 {
                assert(taken_first(all, texts(skins@)[0]));
            }
        }
        if skins.len() == 0 {
            proof {
                if all.len() > 0 {
                    assert(listed_form(texts(skins@), all[0]));
                }
            }
            skins.push(AppConfig::default().selected_skin);
            assert(texts(skins@) =~= seq!["default"@]);
        }
        skins
    }
}

} // verus!
