//! The frame around the screens: which panels show, the escape sequences
//! sent to the terminal beside the drawing (desktop notifications, the
//! background colour, the clipboard), and the text of the frame's titles.

use base64::Engine;
use vstd::prelude::*;

use crate::profile::Profile;
use crate::text::{
    chars_of, contains_str, dec, has_sub, is_ascii_alnum, push_char, push_decimal, push_str, str_eq,
};
use crate::user::RightSidebarMode;

verus! {

/// The top-level screens, numbered 1 to 4 in the tab bar.
#[derive(Clone, Copy, Debug, PartialEq, Eq, Structural)]
pub enum Screen {
    Dashboard,
    Arcade,
    Rooms,
    Artboard,
}

/// Which desktop-notification escape sequences a terminal gets.
#[derive(Clone, Copy, Debug, PartialEq, Eq, Structural)]
pub enum NotificationMode {
    /// OSC 777 followed by OSC 9.
    Both,
    /// OSC 777 only (kitty, Ghostty, rxvt-unicode, foot, wezterm, konsole).
    Osc777,
    /// OSC 9 only (iTerm2).
    Osc9,
}

impl NotificationMode {
    /// The mode a stored `notify_format` names; `"both"`, anything else,
    /// or nothing gives `Both`.
    pub fn from_format(format: Option<&str>) -> (r: Self)
        ensures
            r == (match format {
                Some(f) => if f@ == "osc777"@ {
                    NotificationMode::Osc777
                } else if f@ == "osc9"@ {
                    NotificationMode::Osc9
                } else {
                    NotificationMode::Both
                },
                None => NotificationMode::Both,
            }),
    {
        match format {
            Some(f) => if str_eq(f, "osc777") {
                NotificationMode::Osc777
            } else if str_eq(f, "osc9") {
                NotificationMode::Osc9
            } else {
                NotificationMode::Both
            },
            None => NotificationMode::Both,
        }
    }
}

// ---------------------------------------------------------------------------
// Desktop notifications

/// A character of a notification field: the control characters that would
/// end or break the escape sequence become spaces, and `;`, the field
/// separator, becomes `|`.
pub open spec fn notification_char(c: char) -> char {
    if c == '\x1b' || c == '\x07' || c == '\n' || c == '\r' {
        ' '
    } else if c == ';' {
        '|'
    } else {
        c
    }
}

pub open spec fn sanitized_field(s: Seq<char>) -> Seq<char> {
    s.map_values(|c: char| notification_char(c))
}

/// The field with escape, bell, newline and carriage return replaced by a
/// space and `;` by `|`.
pub fn sanitize_notification_field(input: &str) -> (r: String)
    ensures
        r@ == sanitized_field(input@),
{
    let mut out = String::new();
    let n = input.unicode_len();
    let mut i: usize = 0;
    while i < n
        invariant
            n == input@.len(),
            i <= n,
            out@ == sanitized_field(input@.take(i as int)),
        decreases n - i,
    {
        let c = input.get_char(i);
        let d = if c == '\x1b' || c == '\x07' || c == '\n' || c == '\r' {
            ' '
        } else if c == ';' {
            '|'
        } else {
            c
        };
        crate::text::push_char(&mut out, d);
        proof {
            assert(sanitized_field(input@.take(i + 1)) =~= sanitized_field(input@.take(i as int)).push(
                d,
            ));
        }
        i = i + 1;
    }
    assert(input@.take(n as int) =~= input@);
    out
}

/// OSC 777: title and body as separate fields.
pub open spec fn osc777_text(title: Seq<char>, body: Seq<char>) -> Seq<char> {
    "\x1b]777;notify;"@ + sanitized_field(title) + ";"@ + sanitized_field(body) + "\x1b\\"@
}

/// OSC 9: one string, `title: body`.
pub open spec fn osc9_text(title: Seq<char>, body: Seq<char>) -> Seq<char> {
    "\x1b]9;"@ + sanitized_field(title) + ": "@ + sanitized_field(body) + "\x1b\\"@
}

/// The text of a desktop notification in the chosen mode, with a bell
/// character after it when `bell` is set.
pub open spec fn notification_text(
    title: Seq<char>,
    body: Seq<char>,
    mode: NotificationMode,
    bell: bool,
) -> Seq<char> {
    let bell_text = if bell {
        "\x07"@
    } else {
        Seq::empty()
    };
    match mode {
        NotificationMode::Both => osc777_text(title, body) + osc9_text(title, body) + bell_text,
        NotificationMode::Osc777 => osc777_text(title, body) + bell_text,
        NotificationMode::Osc9 => osc9_text(title, body) + bell_text,
    }
}

fn push_osc777(out: &mut String, title: &str, body: &str)
    ensures
        final(out)@ == old(out)@ + osc777_text(title@, body@),
{
    push_str(out, "\x1b]777;notify;");
    push_str(out, sanitize_notification_field(title).as_str());
    push_str(out, ";");
    push_str(out, sanitize_notification_field(body).as_str());
    push_str(out, "\x1b\\");
    assert(final(out)@ =~= old(out)@ + osc777_text(title@, body@));
}

fn push_osc9(out: &mut String, title: &str, body: &str)
    ensures
        final(out)@ == old(out)@ + osc9_text(title@, body@),
{
    push_str(out, "\x1b]9;");
    push_str(out, sanitize_notification_field(title).as_str());
    push_str(out, ": ");
    push_str(out, sanitize_notification_field(body).as_str());
    push_str(out, "\x1b\\");
    assert(final(out)@ =~= old(out)@ + osc9_text(title@, body@));
}

/// The bytes that raise a desktop notification: the UTF-8 encoding of the
/// OSC 777 and/or OSC 9 sequences that `mode` picks, then a bell when
/// asked for.
pub fn desktop_notification_bytes(title: &str, body: &str, mode: NotificationMode, bell: bool) -> (r:
    Vec<u8>)
    ensures
        r@ == vstd::utf8::encode_utf8(notification_text(title@, body@, mode, bell)),
{
    let mut out = String::new();
    match mode {
        NotificationMode::Both => {
            push_osc777(&mut out, title, body);
            push_osc9(&mut out, title, body);
        },
        NotificationMode::Osc777 => {
            push_osc777(&mut out, title, body);
        },
        NotificationMode::Osc9 => {
            push_osc9(&mut out, title, body);
        },
    }
    if bell {
        push_str(&mut out, "\x07");
    }
    assert(out@ =~= notification_text(title@, body@, mode, bell));
    out.as_str().as_bytes_vec()
}

// ---------------------------------------------------------------------------
// Which panels show

/// While the settings modal is open its draft decides, so changes preview
/// live; otherwise the saved profile does.
pub open spec fn preview_or_saved(show_settings: bool, draft: bool, saved: bool) -> bool {
    if show_settings {
        draft
    } else {
        saved
    }
}

/// Whether the right sidebar shows.
pub fn sidebar_enabled(show_settings: bool, draft_enabled: bool, profile_enabled: bool) -> (r: bool)
    ensures
        r == preview_or_saved(show_settings, draft_enabled, profile_enabled),
{
    if show_settings {
        draft_enabled
    } else {
        profile_enabled
    }
}

/// Whether the room list sidebar shows.
pub fn room_list_sidebar_enabled(show_settings: bool, draft_enabled: bool, profile_enabled: bool) -> (r:
    bool)
    ensures
        r == preview_or_saved(show_settings, draft_enabled, profile_enabled),
{
    if show_settings {
        draft_enabled
    } else {
        profile_enabled
    }
}

/// Whether the lounge info boxes show.
pub fn lounge_info_enabled(show_settings: bool, draft_enabled: bool, profile_enabled: bool) -> (r:
    bool)
    ensures
        r == preview_or_saved(show_settings, draft_enabled, profile_enabled),
{
    if show_settings {
        draft_enabled
    } else {
        profile_enabled
    }
}

/// Whether the dashboard wire strip shows.
pub fn dashboard_wire_enabled(show_settings: bool, draft_enabled: bool, profile_enabled: bool) -> (r:
    bool)
    ensures
        r == preview_or_saved(show_settings, draft_enabled, profile_enabled),
{
    if show_settings {
        draft_enabled
    } else {
        profile_enabled
    }
}

pub open spec fn screen_number_spec(screen: Screen) -> u8 {
    match screen {
        Screen::Dashboard => 1,
        Screen::Arcade => 2,
        Screen::Rooms => 3,
        Screen::Artboard => 4,
    }
}

/// Map a top-level screen to its 1-based slot in `right_sidebar_screens`.
pub fn screen_number(screen: Screen) -> (r: u8)
    ensures
        r == screen_number_spec(screen),
        1 <= r <= 4,
{
    match screen {
        Screen::Dashboard => 1,
        Screen::Arcade => 2,
        Screen::Rooms => 3,
        Screen::Artboard => 4,
    }
}

pub open spec fn right_sidebar_shows(mode: RightSidebarMode, screens: Seq<u8>, screen: Screen) -> bool {
    match mode {
        RightSidebarMode::On => true,
        RightSidebarMode::Off => false,
        RightSidebarMode::Custom => screens.contains(screen_number_spec(screen)),
    }
}

/// The sidebar shows on every screen in On mode, on none in Off mode, and
/// in Custom mode exactly on the screens whose number (Dashboard 1,
/// Arcade 2, Rooms 3, Artboard 4) occurs anywhere in the list.
pub proof fn lemma_right_sidebar_screens(screens: Seq<u8>, screen: Screen)
    ensures
        right_sidebar_shows(RightSidebarMode::On, screens, screen),
        !right_sidebar_shows(RightSidebarMode::Off, screens, screen),
        right_sidebar_shows(RightSidebarMode::Custom, screens, screen) <==> exists|i: int|
            0 <= i < screens.len() && #[trigger] screens[i] == (match screen {
                Screen::Dashboard => 1u8,
                Screen::Arcade => 2u8,
                Screen::Rooms => 3u8,
                Screen::Artboard => 4u8,
            }),
{
}

/// Resolve whether the right sidebar should render on `screen` given a
/// profile (or draft) sidebar mode and per-screen visibility set.
pub fn resolve_right_sidebar_enabled(mode: RightSidebarMode, screens: &[u8], screen: Screen) -> (r:
    bool)
    ensures
        r == right_sidebar_shows(mode, screens@, screen),
{
    match mode {
        RightSidebarMode::On => true,
        RightSidebarMode::Off => false,
        RightSidebarMode::Custom => contains_u8(screens, screen_number(screen)),
    }
}

/// Whether `k` occurs in `v`.
pub fn contains_u8(v: &[u8], k: u8) -> (r: bool)
    ensures
        r == v@.contains(k),
{
    let mut i: usize = 0;
    while i < v.len()
        invariant
            i <= v@.len(),
            forall|j: int| 0 <= j < i ==> v@[j] != k,
        decreases v@.len() - i,
    {
        if v[i] == k {
            assert(v@[i as int] == k);
            return true;
        }
        i = i + 1;
    }
    false
}

/// Whether the dashboard's home entry is the selection: the general room
/// is selected and no synthetic entry (feeds, news, ...) is.
pub fn dashboard_home_selected(
    general_room_id: Option<u128>,
    selected_room_id: Option<u128>,
    synthetic_selected: bool,
) -> (r: bool)
    ensures
        r == (general_room_id is Some && selected_room_id == general_room_id
            && !synthetic_selected),
{
    match general_room_id {
        Some(general) => match selected_room_id {
            Some(selected) => selected == general && !synthetic_selected,
            None => false,
        },
        None => false,
    }
}

/// What the frame takes from the settings while drawing: the draft's
/// values while the settings modal is open, the saved profile's otherwise.
#[derive(Clone, Debug)]
pub struct FrameSettings {
    pub theme_id: String,
    pub enable_background_color: bool,
    pub show_right_sidebar: bool,
    pub show_room_list_sidebar: bool,
    pub show_lounge_info: bool,
    pub show_dashboard_wire: bool,
    pub profile_theming: bool,
}

impl FrameSettings {
    /// Resolves the frame settings on `screen`. `saved_theme_id` is the
    /// saved profile's theme; the draft falls back to it when it has none.
    pub fn resolve(
        show_settings: bool,
        draft: &Profile,
        saved: &Profile,
        saved_theme_id: &str,
        screen: Screen,
    ) -> (r: FrameSettings)
        ensures
            r.theme_id@ == (if show_settings && draft.theme_id is Some {
                draft.theme_id->0@
            } else {
                saved_theme_id@
            }),
            r.enable_background_color == preview_or_saved(
                show_settings,
                draft.enable_background_color,
                saved.enable_background_color,
            ),
            r.show_right_sidebar == preview_or_saved(
                show_settings,
                right_sidebar_shows(draft.right_sidebar_mode, draft.right_sidebar_screens@, screen),
                right_sidebar_shows(saved.right_sidebar_mode, saved.right_sidebar_screens@, screen),
            ),
            r.show_room_list_sidebar == preview_or_saved(
                show_settings,
                draft.show_room_list_sidebar,
                saved.show_room_list_sidebar,
            ),
            r.show_lounge_info == preview_or_saved(
                show_settings,
                draft.show_dashboard_header,
                saved.show_dashboard_header,
            ),
            r.show_dashboard_wire == preview_or_saved(
                show_settings,
                draft.show_dashboard_wire,
                saved.show_dashboard_wire,
            ),
            r.profile_theming == preview_or_saved(
                show_settings,
                draft.profile_theming,
                saved.profile_theming,
            ),
    {
        let theme_id = if show_settings {
            match &draft.theme_id {
                Some(t) => t.clone(),
                None => saved_theme_id.to_owned(),
            }
        } else {
            saved_theme_id.to_owned()
        };
        FrameSettings {
            theme_id,
            enable_background_color: if show_settings {
                draft.enable_background_color
            } else {
                saved.enable_background_color
            },
            show_right_sidebar: sidebar_enabled(
                show_settings,
                resolve_right_sidebar_enabled(
                    draft.right_sidebar_mode,
                    draft.right_sidebar_screens.as_slice(),
                    screen,
                ),
                resolve_right_sidebar_enabled(
                    saved.right_sidebar_mode,
                    saved.right_sidebar_screens.as_slice(),
                    screen,
                ),
            ),
            show_room_list_sidebar: room_list_sidebar_enabled(
                show_settings,
                draft.show_room_list_sidebar,
                saved.show_room_list_sidebar,
            ),
            show_lounge_info: lounge_info_enabled(
                show_settings,
                draft.show_dashboard_header,
                saved.show_dashboard_header,
            ),
            show_dashboard_wire: dashboard_wire_enabled(
                show_settings,
                draft.show_dashboard_wire,
                saved.show_dashboard_wire,
            ),
            profile_theming: if show_settings {
                draft.profile_theming
            } else {
                saved.profile_theming
            },
        }
    }
}

// ---------------------------------------------------------------------------
// Titles

/// How a piece of title text is drawn; the terminal front end maps each to
/// the theme's colours.
#[derive(Clone, Copy, Debug, PartialEq, Eq, Structural)]
pub enum TitleStyle {
    /// Unstyled.
    Plain,
    /// The brand: bright and bold.
    Brand,
    /// Separators: the dim border colour.
    Border,
    /// The tab of the screen shown: selection on amber, bold.
    TabActive,
    /// Secondary text.
    Dim,
    /// Muted text.
    Muted,
    /// Bright text.
    Bright,
    /// Amber text.
    Amber,
    /// Dim amber text.
    AmberDim,
    /// A key name in a hint: dim amber, bold.
    Key,
    /// The faintest text.
    Faint,
    /// The unread-mention count: the mention colour, bold.
    Mention,
}

/// One piece of a title.
#[derive(Clone, Debug)]
pub struct TitleSpan {
    pub text: String,
    pub style: TitleStyle,
}

/// A title: its pieces, left to right, and whether it hugs the right edge.
#[derive(Clone, Debug)]
pub struct TitleLine {
    pub spans: Vec<TitleSpan>,
    pub right_aligned: bool,
}

pub open spec fn spans_view(v: Seq<TitleSpan>) -> Seq<(Seq<char>, TitleStyle)> {
    v.map_values(|s: TitleSpan| (s.text@, s.style))
}

fn push_span(v: &mut Vec<TitleSpan>, text: &str, style: TitleStyle)
    ensures
        spans_view(final(v)@) == spans_view(old(v)@).push((text@, style)),
{
    v.push(TitleSpan { text: text.to_owned(), style });
    assert(spans_view(v@) =~= spans_view(old(v)@).push((text@, style)));
}

fn push_span_string(v: &mut Vec<TitleSpan>, text: String, style: TitleStyle)
    ensures
        spans_view(final(v)@) == spans_view(old(v)@).push((text@, style)),
{
    let ghost t = text@;
    v.push(TitleSpan { text, style });
    assert(spans_view(v@) =~= spans_view(old(v)@).push((t, style)));
}

/// The decimal text of a signed integer.
pub open spec fn signed_dec(n: i64) -> Seq<char> {
    if n < 0 {
        seq!['-'] + dec((-(n as int)) as nat)
    } else {
        dec(n as nat)
    }
}

fn push_signed_decimal(s: &mut String, n: i64)
    ensures
        final(s)@ == old(s)@ + signed_dec(n),
{
    if n < 0 {
        push_char(s, '-');
        let m: u64 = (-(n as i128)) as u64;
        push_decimal(s, m);
        assert(final(s)@ =~= old(s)@ + signed_dec(n));
    } else {
        push_decimal(s, n as u64);
    }
}

/// The extra facts a room's game shows in the title.
#[derive(Clone, Debug)]
pub struct RoomTitleDetails {
    pub seated: Option<String>,
    pub role: Option<String>,
    pub balance: Option<i64>,
}

/// The room open on the Rooms screen.
#[derive(Clone, Debug)]
pub struct ActiveRoomTitle {
    pub display_name: String,
    pub details: Option<RoomTitleDetails>,
}

/// What the frame title shows beyond the tabs, as the screens report it.
#[derive(Clone, Debug)]
pub struct FrameTitleContext {
    /// The room the home screen shows, if it names one.
    pub home_room_label: Option<String>,
    /// The game being played on the Arcade screen, if one is.
    pub arcade_game_title: Option<String>,
    /// The room open on the Rooms screen, if any.
    pub active_room: Option<ActiveRoomTitle>,
    /// Rooms listed on the Rooms screen.
    pub live_rooms: u64,
    /// Of those, the rooms whose status is open.
    pub open_rooms: u64,
    /// Whether the artboard is being drawn on.
    pub artboard_interacting: bool,
}

pub open spec fn tab_style(tab: Screen, shown: Screen) -> TitleStyle {
    if tab == shown {
        TitleStyle::TabActive
    } else {
        TitleStyle::Dim
    }
}

pub open spec fn page_title(screen: Screen) -> Seq<char> {
    match screen {
        Screen::Dashboard => "Home"@,
        Screen::Arcade => "The Arcade"@,
        Screen::Artboard => "Artboard"@,
        Screen::Rooms => "Rooms"@,
    }
}

/// The brand, then the four numbered tabs with the shown one highlighted,
/// then the page title.
pub open spec fn title_head(screen: Screen) -> Seq<(Seq<char>, TitleStyle)> {
    seq![
        (" late.sh "@, TitleStyle::Brand),
        ("| "@, TitleStyle::Border),
        ("1"@, tab_style(Screen::Dashboard, screen)),
        (" "@, TitleStyle::Plain),
        ("2"@, tab_style(Screen::Arcade, screen)),
        (" "@, TitleStyle::Plain),
        ("3"@, tab_style(Screen::Rooms, screen)),
        (" "@, TitleStyle::Plain),
        ("4"@, tab_style(Screen::Artboard, screen)),
        (" | "@, TitleStyle::Border),
        (page_title(screen) + " "@, TitleStyle::Muted),
    ]
}

pub open spec fn opt_detail(o: Option<String>) -> Seq<(Seq<char>, TitleStyle)> {
    match o {
        Some(t) => seq![(" · "@, TitleStyle::Dim), (t@, TitleStyle::Dim)],
        None => Seq::empty(),
    }
}

pub open spec fn rooms_extras(ctx: FrameTitleContext) -> Seq<(Seq<char>, TitleStyle)> {
    match ctx.active_room {
        Some(room) => seq![("· "@, TitleStyle::Dim), (room.display_name@, TitleStyle::Bright)]
            + match room.details {
            Some(d) => opt_detail(d.seated) + opt_detail(d.role) + match d.balance {
                Some(b) => seq![
                    (" · "@, TitleStyle::Dim),
                    ("Bal "@, TitleStyle::Dim),
                    (signed_dec(b) + " "@, TitleStyle::Amber),
                ],
                None => Seq::empty(),
            },
            None => Seq::empty(),
        },
        None => seq![
            ("· "@, TitleStyle::Dim),
            (dec(ctx.live_rooms as nat) + " live"@, TitleStyle::Dim),
            (" · "@, TitleStyle::Dim),
            (dec(ctx.open_rooms as nat) + " open "@, TitleStyle::Dim),
        ],
    }
}

pub open spec fn labelled(label: Option<String>) -> Seq<(Seq<char>, TitleStyle)> {
    match label {
        Some(l) => seq![("· "@, TitleStyle::Dim), (l@ + " "@, TitleStyle::Bright)],
        None => Seq::empty(),
    }
}

pub open spec fn hint(key: Seq<char>, desc: Seq<char>) -> Seq<(Seq<char>, TitleStyle)> {
    seq![("· "@, TitleStyle::Border), (key, TitleStyle::Key), (" "@ + desc + " "@, TitleStyle::Dim)]
}

pub open spec fn artboard_extras(interacting: bool) -> Seq<(Seq<char>, TitleStyle)> {
    seq![("by github.com/mevanlc "@, TitleStyle::Dim)] + if interacting {
        hint("active"@, "draw"@) + hint("Space"@, "drop"@) + hint("Esc"@, "view"@) + hint(
            "Ctrl+\\"@,
            "owners"@,
        ) + hint("Ctrl+P"@, "help"@)
    } else {
        hint("view"@, "pan"@) + hint("Alt+arrows/R-drag"@, "pan"@) + hint("i"@, "edit"@) + hint(
            "g"@,
            "gallery"@,
        )
    }
}

/// The frame's top-left title on `screen`.
pub open spec fn frame_title_spec(screen: Screen, ctx: FrameTitleContext) -> Seq<
    (Seq<char>, TitleStyle),
> {
    title_head(screen) + match screen {
        Screen::Rooms => rooms_extras(ctx),
        Screen::Dashboard => labelled(ctx.home_room_label),
        Screen::Arcade => labelled(ctx.arcade_game_title),
        Screen::Artboard => artboard_extras(ctx.artboard_interacting),
    }
}

fn push_labelled(v: &mut Vec<TitleSpan>, label: &Option<String>)
    ensures
        spans_view(final(v)@) == spans_view(old(v)@) + labelled(*label),
{
    match label {
        Some(l) => {
            push_span(v, "· ", TitleStyle::Dim);
            let mut t = l.clone();
            push_str(&mut t, " ");
            push_span_string(v, t, TitleStyle::Bright);
        },
        None => {},
    }
    assert(spans_view(v@) =~= spans_view(old(v)@) + labelled(*label));
}

fn push_hint(v: &mut Vec<TitleSpan>, key: &str, desc: &str)
    ensures
        spans_view(final(v)@) == spans_view(old(v)@) + hint(key@, desc@),
{
    push_span(v, "· ", TitleStyle::Border);
    push_span(v, key, TitleStyle::Key);
    let mut t = String::new();
    push_str(&mut t, " ");
    push_str(&mut t, desc);
    push_str(&mut t, " ");
    push_span_string(v, t, TitleStyle::Dim);
    assert(spans_view(v@) =~= spans_view(old(v)@) + hint(key@, desc@));
}

fn push_detail(v: &mut Vec<TitleSpan>, o: &Option<String>)
    ensures
        spans_view(final(v)@) == spans_view(old(v)@) + opt_detail(*o),
{
    match o {
        Some(t) => {
            push_span(v, " · ", TitleStyle::Dim);
            push_span_string(v, t.clone(), TitleStyle::Dim);
        },
        None => {},
    }
    assert(spans_view(v@) =~= spans_view(old(v)@) + opt_detail(*o));
}

fn push_rooms_extras(v: &mut Vec<TitleSpan>, ctx: &FrameTitleContext)
    ensures
        spans_view(final(v)@) == spans_view(old(v)@) + rooms_extras(*ctx),
{
    match &ctx.active_room {
        Some(room) => {
            push_span(v, "· ", TitleStyle::Dim);
            push_span_string(v, room.display_name.clone(), TitleStyle::Bright);
            let ghost mid = spans_view(v@);
            match &room.details {
                Some(d) => {
                    push_detail(v, &d.seated);
                    push_detail(v, &d.role);
                    match d.balance {
                        Some(b) => {
                            push_span(v, " · ", TitleStyle::Dim);
                            push_span(v, "Bal ", TitleStyle::Dim);
                            let mut t = String::new();
                            push_signed_decimal(&mut t, b);
                            push_str(&mut t, " ");
                            push_span_string(v, t, TitleStyle::Amber);
                        },
                        None => {},
                    }
                },
                None => {},
            }
        },
        None => {
            push_span(v, "· ", TitleStyle::Dim);
            let mut live = String::new();
            push_decimal(&mut live, ctx.live_rooms);
            push_str(&mut live, " live");
            push_span_string(v, live, TitleStyle::Dim);
            push_span(v, " · ", TitleStyle::Dim);
            let mut open = String::new();
            push_decimal(&mut open, ctx.open_rooms);
            push_str(&mut open, " open ");
            push_span_string(v, open, TitleStyle::Dim);
        },
    }
    assert(spans_view(v@) =~= spans_view(old(v)@) + rooms_extras(*ctx));
}

/// The frame's top-left title: brand, tabs, page title and what the screen
/// adds (the open room, the home room, the game, or the artboard's hints).
pub fn app_frame_title(screen: Screen, ctx: &FrameTitleContext) -> (r: TitleLine)
    ensures
        spans_view(r.spans@) == frame_title_spec(screen, *ctx),
        !r.right_aligned,
{
    let mut v: Vec<TitleSpan> = Vec::new();
    push_span(&mut v, " late.sh ", TitleStyle::Brand);
    push_span(&mut v, "| ", TitleStyle::Border);
    push_span(&mut v, "1", if screen == Screen::Dashboard {
        TitleStyle::TabActive
    } else {
        TitleStyle::Dim
    });
    push_span(&mut v, " ", TitleStyle::Plain);
    push_span(&mut v, "2", if screen == Screen::Arcade {
        TitleStyle::TabActive
    } else {
        TitleStyle::Dim
    });
    push_span(&mut v, " ", TitleStyle::Plain);
    push_span(&mut v, "3", if screen == Screen::Rooms {
        TitleStyle::TabActive
    } else {
        TitleStyle::Dim
    });
    push_span(&mut v, " ", TitleStyle::Plain);
    push_span(&mut v, "4", if screen == Screen::Artboard {
        TitleStyle::TabActive
    } else {
        TitleStyle::Dim
    });
    push_span(&mut v, " | ", TitleStyle::Border);
    let page = match screen {
        Screen::Dashboard => "Home ",
        Screen::Arcade => "The Arcade ",
        Screen::Artboard => "Artboard ",
        Screen::Rooms => "Rooms ",
    };
    proof {
        reveal_strlit("Home ");
        reveal_strlit("Home");
        reveal_strlit("The Arcade ");
        reveal_strlit("The Arcade");
        reveal_strlit("Artboard ");
        reveal_strlit("Artboard");
        reveal_strlit("Rooms ");
        reveal_strlit("Rooms");
        reveal_strlit(" ");
        assert(page@ == page_title(screen) + " "@);
    }
    push_span(&mut v, page, TitleStyle::Muted);
    assert(spans_view(v@) =~= title_head(screen));
    match screen {
        Screen::Rooms => push_rooms_extras(&mut v, ctx),
        Screen::Dashboard => push_labelled(&mut v, &ctx.home_room_label),
        Screen::Arcade => push_labelled(&mut v, &ctx.arcade_game_title),
        Screen::Artboard => {
            push_span(&mut v, "by github.com/mevanlc ", TitleStyle::Dim);
            if ctx.artboard_interacting {
                push_hint(&mut v, "active", "draw");
                push_hint(&mut v, "Space", "drop");
                push_hint(&mut v, "Esc", "view");
                push_hint(&mut v, "Ctrl+\\", "owners");
                push_hint(&mut v, "Ctrl+P", "help");
            } else {
                push_hint(&mut v, "view", "pan");
                push_hint(&mut v, "Alt+arrows/R-drag", "pan");
                push_hint(&mut v, "i", "edit");
                push_hint(&mut v, "g", "gallery");
            }
            assert(spans_view(v@) =~= title_head(screen) + artboard_extras(
                ctx.artboard_interacting,
            ));
        },
    }
    TitleLine { spans: v, right_aligned: false }
}

/// The frame's bottom-right thanks line.
pub fn app_frame_sponsor_title() -> (r: TitleLine)
    ensures
        spans_view(r.spans@) == seq![
            (" thanks for hanging out "@, TitleStyle::Dim),
            ("☕ "@, TitleStyle::Amber),
            ("https://ko-fi.com/mateuszpiorowski "@, TitleStyle::AmberDim),
        ],
        r.right_aligned,
{
    let mut v: Vec<TitleSpan> = Vec::new();
    push_span(&mut v, " thanks for hanging out ", TitleStyle::Dim);
    push_span(&mut v, "☕ ", TitleStyle::Amber);
    push_span(&mut v, "https://ko-fi.com/mateuszpiorowski ", TitleStyle::AmberDim);
    TitleLine { spans: v, right_aligned: true }
}

/// The frame's bottom-left key hints.
pub fn app_frame_help_hint_title() -> (r: TitleLine)
    ensures
        spans_view(r.spans@) == seq![
            (" Settings "@, TitleStyle::Dim),
            ("Ctrl+O"@, TitleStyle::Key),
            (" · "@, TitleStyle::Faint),
            ("Hub "@, TitleStyle::Dim),
            ("Ctrl+G"@, TitleStyle::Key),
            (" · "@, TitleStyle::Faint),
            ("FAQ "@, TitleStyle::Dim),
            ("Ctrl+L"@, TitleStyle::Key),
            (" · "@, TitleStyle::Faint),
            ("Guide "@, TitleStyle::Dim),
            ("? "@, TitleStyle::Key),
        ],
        !r.right_aligned,
{
    let mut v: Vec<TitleSpan> = Vec::new();
    push_span(&mut v, " Settings ", TitleStyle::Dim);
    push_span(&mut v, "Ctrl+O", TitleStyle::Key);
    push_span(&mut v, " · ", TitleStyle::Faint);
    push_span(&mut v, "Hub ", TitleStyle::Dim);
    push_span(&mut v, "Ctrl+G", TitleStyle::Key);
    push_span(&mut v, " · ", TitleStyle::Faint);
    push_span(&mut v, "FAQ ", TitleStyle::Dim);
    push_span(&mut v, "Ctrl+L", TitleStyle::Key);
    push_span(&mut v, " · ", TitleStyle::Faint);
    push_span(&mut v, "Guide ", TitleStyle::Dim);
    push_span(&mut v, "? ", TitleStyle::Key);
    TitleLine { spans: v, right_aligned: false }
}

/// The unread-mentions counter: hidden at zero or below, otherwise
/// ` N unread mention(s) ` on the right.
pub fn mentions_hud_title(unread: i64) -> (r: Option<TitleLine>)
    ensures
        unread <= 0 ==> r is None,
        unread > 0 ==> (r matches Some(line) && line.right_aligned && spans_view(line.spans@)
            == seq![
            (" "@ + dec(unread as nat), TitleStyle::Mention),
            (if unread == 1 {
                " unread mention "@
            } else {
                " unread mentions "@
            }, TitleStyle::Muted),
        ]),
{
    if unread <= 0 {
        return None;
    }
    let mut v: Vec<TitleSpan> = Vec::new();
    let mut count = String::new();
    push_str(&mut count, " ");
    push_decimal(&mut count, unread as u64);
    push_span_string(&mut v, count, TitleStyle::Mention);
    let noun = if unread == 1 {
        " unread mention "
    } else {
        " unread mentions "
    };
    push_span(&mut v, noun, TitleStyle::Muted);
    Some(TitleLine { spans: v, right_aligned: true })
}

// ---------------------------------------------------------------------------
// Terminal commands

/// The text `base64::engine::general_purpose::STANDARD.encode` gives for
/// some bytes.
pub uninterp spec fn base64_standard(bytes: Seq<u8>) -> Seq<char>;

/// A character of the standard base64 alphabet, or its `=` padding.
pub open spec fn base64_char(c: char) -> bool {
    is_ascii_alnum(c) || c == '+' || c == '/' || c == '='
}

/// Calls `base64::engine::general_purpose::STANDARD.encode(bytes)`. The
/// contract names the text and states what RFC 4648's standard alphabet
/// with padding gives: letters, digits, `+`, `/` and `=` only, four
/// characters for every three bytes or part of three. Which characters
/// stand where is only named. The encoder panics when the length
/// computation overflows, so very long inputs are left out.
#[verifier::external_body]
fn base64_encode(bytes: &[u8]) -> (r: String)
    requires
        bytes@.len() <= usize::MAX / 2,
    ensures
        r@ == base64_standard(bytes@),
        r@.len() == 4 * ((bytes@.len() + 2) / 3),
        forall|i: int| 0 <= i < r@.len() ==> base64_char(#[trigger] r@[i]),
{
    base64::engine::general_purpose::STANDARD.encode(bytes)
}

/// The OSC 52 text that puts `text` on the terminal's clipboard.
pub open spec fn clipboard_text(text: Seq<char>) -> Seq<char> {
    "\x1b]52;c;"@ + base64_standard(vstd::utf8::encode_utf8(text)) + "\x07"@
}

/// The bytes of the OSC 52 sequence that copies `text` to the clipboard.
/// Between its opening and its closing bell there is only base64 text, so
/// no escape or bell in `text` can end it early.
pub fn clipboard_command(text: &str) -> (r: Vec<u8>)
    requires
        vstd::utf8::encode_utf8(text@).len() <= usize::MAX / 2,
    ensures
        r@ == vstd::utf8::encode_utf8(clipboard_text(text@)),
        forall|i: int|
            7 <= i < clipboard_text(text@).len() - 1 ==> #[trigger] clipboard_text(text@)[i]
                != '\x07' && clipboard_text(text@)[i] != '\x1b',
{
    let encoded = base64_encode(text.as_bytes());
    let mut out = String::new();
    push_str(&mut out, "\x1b]52;c;");
    push_str(&mut out, encoded.as_str());
    push_str(&mut out, "\x07");
    proof {
        reveal_strlit("\x1b]52;c;");
        reveal_strlit("\x07");
        let c = clipboard_text(text@);
        assert(out@ =~= c);
        assert forall|i: int| 7 <= i < c.len() - 1 implies #[trigger] c[i] != '\x07' && c[i]
            != '\x1b' by {
            assert(c[i] == encoded@[i - 7]);
            assert(base64_char(encoded@[i - 7]));
        }
    }
    out.as_str().as_bytes_vec()
}

/// The OSC 11 sequence that sets the terminal background to `hex`, or the
/// OSC 111 one that restores the terminal's own background.
pub open spec fn background_text(hex: Option<Seq<char>>) -> Seq<char> {
    match hex {
        Some(h) => "\x1b]11;"@ + h + "\x1b\\"@,
        None => "\x1b]111\x1b\\"@,
    }
}

/// The bytes that set (or reset) the terminal background colour.
pub fn background_command(hex: Option<&str>) -> (r: Vec<u8>)
    ensures
        r@ == vstd::utf8::encode_utf8(background_text(
            match hex {
                Some(h) => Some(h@),
                None => None,
            },
        )),
{
    let mut out = String::new();
    match hex {
        Some(h) => {
            push_str(&mut out, "\x1b]11;");
            push_str(&mut out, h);
            push_str(&mut out, "\x1b\\");
        },
        None => {
            push_str(&mut out, "\x1b]111\x1b\\");
        },
    }
    assert(out@ =~= background_text(
        match hex {
            Some(h) => Some(h@),
            None => None,
        },
    ));
    out.as_str().as_bytes_vec()
}

/// Whether the cooldown has passed, `since_last_ms` being the time since
/// the last notification (`None`: there was none).
pub open spec fn cooldown_passed(cooldown_mins: i32, since_last_ms: Option<u64>) -> bool {
    match since_last_ms {
        Some(ms) => ms >= cooldown_mins * 60000,
        None => true,
    }
}

/// Whether the notification cooldown has passed: no notification yet, or
/// at least `cooldown_mins` minutes (given `since_last_ms` milliseconds)
/// since the last one.
pub fn notification_cooldown_ok(cooldown_mins: i32, since_last_ms: Option<u64>) -> (r: bool)
    requires
        cooldown_mins >= 0,
    ensures
        r == cooldown_passed(cooldown_mins, since_last_ms),
{
    match since_last_ms {
        Some(ms) => ms >= cooldown_mins as u64 * 60000,
        None => true,
    }
}

/// Whether `r` is the first pending notification whose kind is enabled
/// (`None` when there is none).
pub open spec fn first_enabled_spec(
    pending_kinds: Seq<String>,
    enabled_kinds: Seq<String>,
    r: Option<usize>,
) -> bool {
    match r {
        Some(i) => i < pending_kinds.len() && (exists|k: int|
            0 <= k < enabled_kinds.len() && enabled_kinds[k]@ == pending_kinds[i as int]@)
            && forall|j: int, k: int|
            0 <= j < i && 0 <= k < enabled_kinds.len() ==> enabled_kinds[k]@ != pending_kinds[j]@,
        None => forall|j: int, k: int|
            0 <= j < pending_kinds.len() && 0 <= k < enabled_kinds.len() ==> enabled_kinds[k]@
                != pending_kinds[j]@,
    }
}

/// The first pending notification whose kind the user enabled.
pub fn first_enabled_notification(pending_kinds: &Vec<String>, enabled_kinds: &Vec<String>) -> (r:
    Option<usize>)
    ensures
        first_enabled_spec(pending_kinds@, enabled_kinds@, r),
{
    let mut i: usize = 0;
    while i < pending_kinds.len()
        invariant
            i <= pending_kinds@.len(),
            forall|j: int, k: int|
                0 <= j < i && 0 <= k < enabled_kinds@.len() ==> enabled_kinds@[k]@
                    != pending_kinds@[j]@,
        decreases pending_kinds@.len() - i,
    {
        let mut k: usize = 0;
        while k < enabled_kinds.len()
            invariant
                i < pending_kinds@.len(),
                k <= enabled_kinds@.len(),
                forall|j: int, m: int|
                    0 <= j < i && 0 <= m < enabled_kinds@.len() ==> enabled_kinds@[m]@
                        != pending_kinds@[j]@,
                forall|m: int| 0 <= m < k ==> enabled_kinds@[m]@ != pending_kinds@[i as int]@,
            decreases enabled_kinds@.len() - k,
        {
            if str_eq(enabled_kinds[k].as_str(), pending_kinds[i].as_str()) {
                return Some(i);
            }
            k = k + 1;
        }
        i = i + 1;
    }
    None
}

/// What a frame does with the pending desktop notifications: once the
/// cooldown has passed, it emits the first whose kind is enabled, and
/// only that one; during the cooldown it emits none. Either way every
/// pending notification is then dropped, never queued.
pub fn notification_to_emit(
    pending_kinds: &Vec<String>,
    enabled_kinds: &Vec<String>,
    cooldown_mins: i32,
    since_last_ms: Option<u64>,
) -> (r: Option<usize>)
    requires
        cooldown_mins >= 0,
    ensures
        cooldown_passed(cooldown_mins, since_last_ms) ==> first_enabled_spec(
            pending_kinds@,
            enabled_kinds@,
            r,
        ),
        !cooldown_passed(cooldown_mins, since_last_ms) ==> r is None,
{
    if notification_cooldown_ok(cooldown_mins, since_last_ms) {
        first_enabled_notification(pending_kinds, enabled_kinds)
    } else {
        None
    }
}


/// A chat event waiting to be raised as a desktop notification.
#[derive(Clone, Debug)]
pub struct PendingNotification {
    pub kind: String,
    pub title: String,
    pub body: String,
}

pub open spec fn kinds_of(p: Seq<PendingNotification>) -> Seq<String> {
    p.map_values(|n: PendingNotification| n.kind)
}

/// The time since `last` on a clock that reads `now_ms` (zero if the
/// clock reads earlier).
pub open spec fn elapsed_since(last: Option<u64>, now_ms: u64) -> Option<u64> {
    match last {
        Some(t) => Some(
            if now_ms >= t {
                (now_ms - t) as u64
            } else {
                0
            },
        ),
        None => None,
    }
}

/// One frame's handling of the pending desktop notifications. Once the
/// cooldown since `last_notify_ms` has passed, the first pending
/// notification whose kind is enabled becomes its escape sequence and
/// `now_ms` is recorded as the time of the last one; during the cooldown,
/// or with no enabled kind pending, nothing is sent and the time stays.
/// Either way every pending notification is dropped, never queued.
pub fn drain_notifications(
    pending: &mut Vec<PendingNotification>,
    enabled_kinds: &Vec<String>,
    cooldown_mins: i32,
    mode: NotificationMode,
    bell: bool,
    last_notify_ms: &mut Option<u64>,
    now_ms: u64,
) -> (r: Option<Vec<u8>>)
    requires
        cooldown_mins >= 0,
    ensures
        final(pending)@.len() == 0,
        match r {
            Some(bytes) => {
                &&& cooldown_passed(cooldown_mins, elapsed_since(*old(last_notify_ms), now_ms))
                &&& exists|i: usize|
                    #[trigger] first_enabled_spec(kinds_of(old(pending)@), enabled_kinds@, Some(i))
                        && bytes@ == vstd::utf8::encode_utf8(
                        notification_text(
                            old(pending)@[i as int].title@,
                            old(pending)@[i as int].body@,
                            mode,
                            bell,
                        ),
                    )
                &&& *final(last_notify_ms) == Some(now_ms)
            },
            None => {
                &&& (!cooldown_passed(cooldown_mins, elapsed_since(*old(last_notify_ms), now_ms))
                    || first_enabled_spec(kinds_of(old(pending)@), enabled_kinds@, None))
                &&& *final(last_notify_ms) == *old(last_notify_ms)
            },
        },
{
    let since: Option<u64> = match *last_notify_ms {
        Some(t) => Some(
            if now_ms >= t {
                now_ms - t
            } else {
                0
            },
        ),
        None => None,
    };
    let mut kinds: Vec<String> = Vec::new();
    let mut i: usize = 0;
    while i < pending.len()
        invariant
            i <= pending@.len(),
            kinds@.len() == i,
            forall|j: int| 0 <= j < i ==> #[trigger] kinds@[j]@ == pending@[j].kind@,
        decreases pending@.len() - i,
    {
        kinds.push(pending[i].kind.clone());
        i = i + 1;
    }
    let ghost pk = kinds_of(pending@);
    proof {
        assert forall|j: int| 0 <= j < kinds@.len() implies #[trigger] kinds@[j]@ == pk[j]@ by {}
    }
    let chosen = notification_to_emit(&kinds, enabled_kinds, cooldown_mins, since);
    proof {
        if cooldown_passed(cooldown_mins, since) {
            lemma_first_enabled_same_views(kinds@, pk, enabled_kinds@, chosen);
        }
    }
    let out = match chosen {
        Some(k) => {
            let bytes = desktop_notification_bytes(
                pending[k].title.as_str(),
                pending[k].body.as_str(),
                mode,
                bell,
            );
            *last_notify_ms = Some(now_ms);
            Some(bytes)
        },
        None => None,
    };
    pending.clear();
    out
}

/// `first_enabled_spec` reads the pending kinds by their text only.
proof fn lemma_first_enabled_same_views(
    a: Seq<String>,
    b: Seq<String>,
    enabled: Seq<String>,
    r: Option<usize>,
)
    requires
        a.len() == b.len(),
        forall|j: int| 0 <= j < a.len() ==> #[trigger] a[j]@ == b[j]@,
        first_enabled_spec(a, enabled, r),
    ensures
        first_enabled_spec(b, enabled, r),
{
    match r {
        Some(i) => {
            assert(a[i as int]@ == b[i as int]@);
            assert forall|j: int, k: int|
                0 <= j < i && 0 <= k < enabled.len() implies #[trigger] enabled[k]@ != #[trigger] b[j]@ by {
                assert(a[j]@ == b[j]@);
            }
        },
        None => {
            assert forall|j: int, k: int|
                0 <= j < b.len() && 0 <= k < enabled.len() implies #[trigger] enabled[k]@
                != #[trigger] b[j]@ by {
                assert(a[j]@ == b[j]@);
            }
        },
    }
}

// ---------------------------------------------------------------------------
// The splash screen, the toast and the overlays

/// The splash line typed so far after `ticks` ticks: one character per
/// tick (at least one, at most the whole message), then a cursor that
/// blinks every 2 ticks while typing and every 8 once the line is done.
pub open spec fn splash_text_spec(msg: Seq<char>, ticks: nat) -> Seq<char> {
    let shown: int = if ticks < 1 {
        1
    } else if ticks > msg.len() {
        msg.len() as int
    } else {
        ticks as int
    };
    let cursor_on = if shown < msg.len() {
        ticks % 4 < 2
    } else {
        ticks % 16 < 8
    };
    msg.take(shown).push(
        if cursor_on {
            '\u{2588}'
        } else {
            ' '
        },
    )
}

/// The text of the splash screen after `ticks` ticks.
pub fn splash_text(ticks: usize) -> (r: String)
    ensures
        r@ == splash_text_spec("take a break, grab a coffee"@, ticks as nat),
{
    let msg = "take a break, grab a coffee";
    proof {
        reveal_strlit("take a break, grab a coffee");
    }
    let chars = chars_of(msg);
    let len = chars.len();
    let shown: usize = if ticks < 1 {
        1
    } else if ticks > len {
        len
    } else {
        ticks
    };
    let mut out = String::new();
    let mut i: usize = 0;
    while i < shown
        invariant
            shown <= chars@.len(),
            i <= shown,
            out@ == chars@.take(i as int),
        decreases shown - i,
    {
        push_char(&mut out, chars[i]);
        i = i + 1;
        assert(out@ =~= chars@.take(i as int));
    }
    let cursor_on = if shown < len {
        ticks % 4 < 2
    } else {
        ticks % 16 < 8
    };
    push_char(
        &mut out,
        if cursor_on {
            '\u{2588}'
        } else {
            ' '
        },
    );
    out
}

/// Which of the four steam pictures the splash shows: the next one every
/// 6 ticks.
pub fn splash_steam_frame(ticks: usize) -> (r: usize)
    ensures
        r == (ticks / 6) % 4,
        r < 4,
{
    (ticks / 6) % 4
}

/// The row of the hint under the splash: three quarters of the way down
/// the gap between the splash's bottom and the area's, if that row is
/// still inside the area.
pub fn splash_hint_row(splash_bottom: u16, area_bottom: u16) -> (r: Option<u16>)
    requires
        splash_bottom < area_bottom ==> (area_bottom - splash_bottom) * 3 <= u16::MAX,
    ensures
        ({
            let gap: int = if splash_bottom < area_bottom {
                area_bottom - splash_bottom
            } else {
                0
            };
            let row = splash_bottom + (gap * 3) / 4;
            if row < area_bottom {
                r == Some(row as u16)
            } else {
                r is None
            }
        }),
{
    let gap: u16 = if splash_bottom < area_bottom {
        area_bottom - splash_bottom
    } else {
        0
    };
    let row = splash_bottom + gap * 3 / 4;
    if row < area_bottom {
        Some(row)
    } else {
        None
    }
}

/// The width of the toast for a message of `message_len` bytes: the
/// message and 7 cells of padding and icon, at least 20 and at most the
/// width inside the frame. The byte count is taken modulo 2^16, as a `u16`
/// keeps it.
pub open spec fn toast_width_spec(message_len: nat, inner_width: u16) -> int {
    let msg_w: int = (message_len % 65536) as int + 7;
    let w: int = if msg_w < 20 {
        20
    } else {
        msg_w
    };
    if w < inner_width {
        w
    } else {
        inner_width as int
    }
}

/// Where the toast stands: its left column and its width, flush with the
/// right edge of the area inside the frame (`inner_x`, `inner_width`).
pub fn toast_area(message_len: usize, inner_x: u16, inner_width: u16) -> (r: (u16, u16))
    requires
        message_len % 65536 + 7 <= u16::MAX,
        inner_x + inner_width <= u16::MAX,
    ensures
        r.1 == toast_width_spec(message_len as nat, inner_width),
        r.0 == inner_x + inner_width - r.1,
{
    let low: u16 = (message_len % 65536) as u16;
    let msg_w = low + 7;
    let wide = if msg_w < 20 {
        20
    } else {
        msg_w
    };
    let width = if wide < inner_width {
        wide
    } else {
        inner_width
    };
    (inner_x + (inner_width - width), width)
}

/// The home screen shows the room rail (24 columns) when the user wants it
/// and the content is wider than the rail and 20 more columns.
pub fn home_rail_shown(show_room_list_sidebar: bool, content_width: u16) -> (r: bool)
    ensures
        r == (show_room_list_sidebar && content_width > 44),
{
    show_room_list_sidebar && content_width > 24 + 20
}

/// The title and subtitle of the QR overlay: a link to the web chat (its
/// path holds `/chat/`) or one that pairs a browser for audio.
pub fn qr_overlay_titles(url: &str) -> (r: (&'static str, &'static str))
    ensures
        has_sub(url@, "/chat/"@) ==> r.0@ == "Web Chat"@ && r.1@ == "Scan to open web chat"@,
        !has_sub(url@, "/chat/"@) ==> r.0@ == "Pair"@ && r.1@ == "Scan to pair audio"@,
{
    let v = chars_of(url);
    if contains_str(&v, "/chat/") {
        ("Web Chat", "Scan to open web chat")
    } else {
        ("Pair", "Scan to pair audio")
    }
}

/// The toast shown while the server drains before an update.
pub fn draining_banner_message() -> (r: &'static str)
    ensures
        r@ == "\u{26a0}\u{fe0f} Server updating! Press 'q' to quit, then reconnect to join the new pod."@,
{
    "\u{26a0}\u{fe0f} Server updating! Press 'q' to quit, then reconnect to join the new pod."
}

} // verus!
