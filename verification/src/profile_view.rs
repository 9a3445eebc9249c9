//! The profile modal: which user it shows, its scroll, and the text of
//! the profile card and of the late.fetch strip. Markdown (the bio and the
//! showcases) is handed to the front end's renderer as text.

use vstd::prelude::*;

use crate::profile::Profile;
use crate::settings::joined;
use crate::tags::string_views;
use crate::text::{dec, push_char, push_decimal, push_str, string_of, trim_str, trim_ws};

verus! {

/// A project a user showcases on their profile.
#[derive(Clone, Debug)]
pub struct Showcase {
    pub user_id: u128,
    pub title: String,
    pub url: String,
    pub description: String,
    pub tags: Vec<String>,
}

/// The tags as inline code, `` `#tag` ``, separated by spaces.
pub open spec fn tag_code(tags: Seq<Seq<char>>) -> Seq<char>
    decreases tags.len(),
{
    if tags.len() == 0 {
        Seq::empty()
    } else if tags.len() == 1 {
        "`#"@ + tags[0] + "`"@
    } else {
        tag_code(tags.drop_last()) + " `#"@ + tags.last() + "`"@
    }
}

/// A showcase as markdown: its title as a heading, its URL as a quote,
/// its description and its tags when it has them.
pub open spec fn showcase_markdown_spec(s: Showcase) -> Seq<char> {
    "### "@ + trim_ws(s.title@) + "\n\n> "@ + trim_ws(s.url@) + (if trim_ws(s.description@).len()
        > 0 {
        "\n\n"@ + trim_ws(s.description@)
    } else {
        Seq::empty()
    }) + (if s.tags@.len() > 0 {
        "\n\n"@ + tag_code(string_views(s.tags@))
    } else {
        Seq::empty()
    })
}

pub fn showcase_markdown(s: &Showcase) -> (r: String)
    ensures
        r@ == showcase_markdown_spec(*s),
{
    let mut out = String::new();
    push_str(&mut out, "### ");
    push_str(&mut out, string_of(&trim_str(s.title.as_str())).as_str());
    push_str(&mut out, "\n\n> ");
    push_str(&mut out, string_of(&trim_str(s.url.as_str())).as_str());
    let description = trim_str(s.description.as_str());
    if description.len() > 0 {
        push_str(&mut out, "\n\n");
        push_str(&mut out, string_of(&description).as_str());
    }
    let ghost head = out@;
    if s.tags.len() > 0 {
        push_str(&mut out, "\n\n");
        let ghost start = out@;
        let mut i: usize = 0;
        while i < s.tags.len()
            invariant
                0 < s.tags@.len(),
                i <= s.tags@.len(),
                out@ == start + tag_code(string_views(s.tags@.take(i as int))),
            decreases s.tags@.len() - i,
        {
            let ghost before = out@;
            if i > 0 {
                push_char(&mut out, ' ');
            }
            push_char(&mut out, '`');
            push_char(&mut out, '#');
            push_str(&mut out, s.tags[i].as_str());
            push_char(&mut out, '`');
            proof {
                reveal_strlit("`#");
                reveal_strlit("`");
                reveal_strlit(" `#");
                let pre = string_views(s.tags@.take(i as int));
                let post = string_views(s.tags@.take(i + 1));
                assert(post.drop_last() =~= pre);
                assert(post.last() == s.tags@[i as int]@);
                assert(out@ =~= start + tag_code(post));
            }
            i = i + 1;
        }
        assert(s.tags@.take(s.tags@.len() as int) =~= s.tags@);
    }
    assert(out@ =~= showcase_markdown_spec(*s));
    out
}

/// Whether a showcase is `id`'s.
pub open spec fn owned_by(id: u128) -> spec_fn(Showcase) -> bool {
    |s: Showcase| s.user_id == id
}

/// The showcases of `viewed` (none when no profile is viewed), in order.
pub open spec fn showcases_of(items: Seq<Showcase>, viewed: Option<u128>) -> Seq<Showcase> {
    match viewed {
        Some(id) => items.filter(owned_by(id)),
        None => Seq::empty(),
    }
}

/// One line of the profile card.
#[derive(Clone, Debug)]
pub enum ProfileLine {
    /// A dim label and its value.
    Field { label: String, value: String },
    /// An empty line.
    Blank,
    /// A section heading between rules.
    Heading(String),
    /// A dim remark.
    Note(String),
    /// Markdown for the front end to render at the card's width.
    Markdown(String),
}

/// A line as a kind tag (0 field, 1 blank, 2 heading, 3 note, 4 markdown)
/// and its texts.
pub open spec fn line_view(l: ProfileLine) -> (int, Seq<char>, Seq<char>) {
    match l {
        ProfileLine::Field { label, value } => (0, label@, value@),
        ProfileLine::Blank => (1, Seq::empty(), Seq::empty()),
        ProfileLine::Heading(t) => (2, t@, Seq::empty()),
        ProfileLine::Note(t) => (3, t@, Seq::empty()),
        ProfileLine::Markdown(t) => (4, t@, Seq::empty()),
    }
}

pub open spec fn lines_view(v: Seq<ProfileLine>) -> Seq<(int, Seq<char>, Seq<char>)> {
    v.map_values(|l: ProfileLine| line_view(l))
}

pub open spec fn field(label: Seq<char>, value: Seq<char>) -> (int, Seq<char>, Seq<char>) {
    (0, label, value)
}

pub open spec fn blank() -> (int, Seq<char>, Seq<char>) {
    (1, Seq::empty(), Seq::empty())
}

pub open spec fn heading(t: Seq<char>) -> (int, Seq<char>, Seq<char>) {
    (2, t, Seq::empty())
}

/// The lines each showcase adds: a blank line, then its markdown.
pub open spec fn showcase_lines(items: Seq<Showcase>) -> Seq<(int, Seq<char>, Seq<char>)>
    decreases items.len(),
{
    if items.len() == 0 {
        Seq::empty()
    } else {
        showcase_lines(items.drop_last()) + seq![
            blank(),
            (4, showcase_markdown_spec(items.last()), Seq::empty()),
        ]
    }
}

/// The profile card: name, country, timezone (and its current time when
/// known), the bio, and the viewed user's showcases.
pub open spec fn profile_lines_spec(
    p: Profile,
    country_label: Seq<char>,
    current_time: Option<Seq<char>>,
    showcases: Seq<Showcase>,
) -> Seq<(int, Seq<char>, Seq<char>)> {
    seq![
        field(
            "Username: "@,
            if trim_ws(p.username@).len() == 0 {
                "not set"@
            } else {
                trim_ws(p.username@)
            },
        ),
        field("Country:  "@, country_label),
        field(
            "Timezone: "@,
            match p.timezone {
                Some(t) => t@,
                None => "Not set"@,
            },
        ),
    ] + match current_time {
        Some(t) => seq![field("Current time: "@, t)],
        None => Seq::empty(),
    } + seq![blank(), heading("Bio"@)] + (if trim_ws(p.bio@).len() == 0 {
        seq![(3, "Not set"@, Seq::empty())]
    } else {
        seq![(4, p.bio@, Seq::empty())]
    }) + if showcases.len() > 0 {
        seq![blank(), heading("Showcases ("@ + crate::text::dec(showcases.len()) + ")"@)]
            + showcase_lines(showcases)
    } else {
        Seq::empty()
    }
}

fn push_line(v: &mut Vec<ProfileLine>, l: ProfileLine)
    ensures
        lines_view(final(v)@) == lines_view(old(v)@).push(line_view(l)),
{
    v.push(l);
    assert(lines_view(v@) =~= lines_view(old(v)@).push(line_view(l)));
}

/// The profile modal apart from its subscriptions: whose profile it
/// shows, the profile once it has arrived, and the scroll.
#[derive(Clone, Debug)]
pub struct ProfileModalView {
    pub viewed_user_id: Option<u128>,
    pub fallback_name: String,
    pub profile: Option<Profile>,
    pub scroll_offset: u16,
}

impl ProfileModalView {
    /// Nothing viewed.
    pub fn new() -> (r: Self)
        ensures
            r.viewed_user_id is None,
            r.fallback_name@.len() == 0,
            r.profile is None,
            r.scroll_offset == 0,
    {
        ProfileModalView {
            viewed_user_id: None,
            fallback_name: String::new(),
            profile: None,
            scroll_offset: 0,
        }
    }

    /// Starts showing `user_id`, at the top, with the profile the current
    /// snapshot holds for that user (if it is that user's).
    pub fn open(&mut self, user_id: u128, fallback_name: String, snapshot_user: Option<u128>, snapshot_profile: Option<Profile>)
        ensures
            final(self).viewed_user_id == Some(user_id),
            final(self).fallback_name == fallback_name,
            final(self).scroll_offset == 0,
            final(self).profile == (if snapshot_user == Some(user_id) {
                snapshot_profile
            } else {
                None
            }),
    {
        self.viewed_user_id = Some(user_id);
        self.fallback_name = fallback_name;
        self.scroll_offset = 0;
        self.profile = profile_from_snapshot(snapshot_user, snapshot_profile, Some(user_id));
    }

    /// Shows nothing.
    pub fn close(&mut self)
        ensures
            final(self).viewed_user_id is None,
            final(self).fallback_name@.len() == 0,
            final(self).profile is None,
            final(self).scroll_offset == 0,
    {
        self.viewed_user_id = None;
        self.fallback_name = String::new();
        self.profile = None;
        self.scroll_offset = 0;
    }

    /// Takes a new snapshot: its profile when it is the viewed user's,
    /// nothing otherwise.
    pub fn snapshot_changed(&mut self, snapshot_user: Option<u128>, snapshot_profile: Option<Profile>)
        ensures
            final(self).profile == (if snapshot_user == old(self).viewed_user_id {
                snapshot_profile
            } else {
                None
            }),
            final(self).viewed_user_id == old(self).viewed_user_id,
            final(self).scroll_offset == old(self).scroll_offset,
            final(self).fallback_name == old(self).fallback_name,
    {
        self.profile = profile_from_snapshot(snapshot_user, snapshot_profile, self.viewed_user_id);
    }

    /// Still waiting for the profile.
    pub fn loading(&self) -> (r: bool)
        ensures
            r == self.profile is None,
    {
        self.profile.is_none()
    }

    /// Scrolls by `delta` lines, staying within `0..=u16::MAX`.
    pub fn scroll_by(&mut self, delta: i16)
        ensures
            final(self).scroll_offset as int == ({
                let next = old(self).scroll_offset + delta;
                if next < 0 {
                    0
                } else if next > u16::MAX {
                    u16::MAX as int
                } else {
                    next
                }
            }),
            final(self).viewed_user_id == old(self).viewed_user_id,
            final(self).profile == old(self).profile,
            final(self).fallback_name == old(self).fallback_name,
    {
        let next: i32 = self.scroll_offset as i32 + delta as i32;
        self.scroll_offset = if next < 0 {
            0
        } else if next > u16::MAX as i32 {
            u16::MAX
        } else {
            next as u16
        };
    }

    /// The indexes of the viewed user's showcases among `items`, in order.
    pub fn showcases_for_viewed(&self, items: &Vec<Showcase>) -> (r: Vec<usize>)
        ensures
            r@.len() == showcases_of(items@, self.viewed_user_id).len(),
            forall|k: int|
                0 <= k < r@.len() ==> #[trigger] r@[k] < items@.len() && items@[r@[k] as int]
                    == showcases_of(items@, self.viewed_user_id)[k],
    {
        let mut r: Vec<usize> = Vec::new();
        match self.viewed_user_id {
            None => {
                return r;
            },
            Some(id) => {
                let ghost f = owned_by(id);
                let mut i: usize = 0;
                while i < items.len()
                    invariant
                        f == owned_by(id),
                        self.viewed_user_id == Some(id),
                        i <= items@.len(),
                        r@.len() == items@.take(i as int).filter(f).len(),
                        forall|k: int|
                            0 <= k < r@.len() ==> #[trigger] r@[k] < i && items@[r@[k] as int]
                                == items@.take(i as int).filter(f)[k],
                    decreases items@.len() - i,
                {
                    proof {
                        assert(items@.take(i + 1) =~= items@.take(i as int).push(items@[i as int]));
                        items@.take(i as int).lemma_filter_push(items@[i as int], f);
                    }
                    let ghost pre = items@.take(i as int).filter(f);
                    let ghost post = items@.take(i + 1).filter(f);
                    if items[i].user_id == id {
                        let ghost before = r@;
                        r.push(i);
                        proof {
                            assert(f(items@[i as int]));
                            assert(post == pre.push(items@[i as int]));
                            assert forall|k: int| 0 <= k < r@.len() implies #[trigger] r@[k] < i
                                + 1 && items@[r@[k] as int] == post[k] by {
                                if k < before.len() {
                                    assert(r@[k] == before[k]);
                                    assert(post[k] == pre[k]);
                                }
                            }
                        }
                    } else {
                        proof {
                            assert(!f(items@[i as int]));
                            assert(post == pre);
                            assert forall|k: int| 0 <= k < r@.len() implies #[trigger] r@[k] < i
                                + 1 && items@[r@[k] as int] == post[k] by {}
                        }
                    }
                    i = i + 1;
                }
                assert(items@.take(items@.len() as int) =~= items@);
                assert(showcases_of(items@, self.viewed_user_id) == items@.filter(f));
            },
        }
        r
    }
}

/// The snapshot's profile when it is the viewed user's.
pub fn profile_from_snapshot(snapshot_user: Option<u128>, snapshot_profile: Option<Profile>, viewed: Option<u128>) -> (r:
    Option<Profile>)
    ensures
        r == (if snapshot_user == viewed {
            snapshot_profile
        } else {
            None
        }),
{
    let same = match (snapshot_user, viewed) {
        (Some(a), Some(b)) => a == b,
        (None, None) => true,
        _ => false,
    };
    if same {
        snapshot_profile
    } else {
        None
    }
}

/// The profile card's lines; none until the profile has arrived.
/// `country_label` names the profile's country and `current_time` is the
/// time in its timezone, when known; `showcases` are the viewed user's.
pub fn build_profile_lines(
    profile: Option<&Profile>,
    country_label: &str,
    current_time: Option<&str>,
    showcases: &Vec<Showcase>,
) -> (r: Vec<ProfileLine>)
    ensures
        match profile {
            None => r@.len() == 0,
            Some(p) => lines_view(r@) == profile_lines_spec(
                *p,
                country_label@,
                match current_time {
                    Some(t) => Some(t@),
                    None => None,
                },
                showcases@,
            ),
        },
{
    let mut v: Vec<ProfileLine> = Vec::new();
    let p = match profile {
        None => {
            return v;
        },
        Some(p) => p,
    };
    let name = trim_str(p.username.as_str());
    let username = if name.len() == 0 {
        "not set".to_owned()
    } else {
        string_of(&name)
    };
    push_line(&mut v, ProfileLine::Field { label: "Username: ".to_owned(), value: username });
    push_line(
        &mut v,
        ProfileLine::Field { label: "Country:  ".to_owned(), value: country_label.to_owned() },
    );
    let timezone = match &p.timezone {
        Some(t) => t.clone(),
        None => "Not set".to_owned(),
    };
    push_line(&mut v, ProfileLine::Field { label: "Timezone: ".to_owned(), value: timezone });
    match current_time {
        Some(t) => push_line(
            &mut v,
            ProfileLine::Field { label: "Current time: ".to_owned(), value: t.to_owned() },
        ),
        None => {},
    }
    push_line(&mut v, ProfileLine::Blank);
    push_line(&mut v, ProfileLine::Heading("Bio".to_owned()));
    if trim_str(p.bio.as_str()).len() == 0 {
        push_line(&mut v, ProfileLine::Note("Not set".to_owned()));
    } else {
        push_line(&mut v, ProfileLine::Markdown(p.bio.clone()));
    }
    let ghost head = lines_view(v@);
    if showcases.len() > 0 {
        push_line(&mut v, ProfileLine::Blank);
        let mut title = String::new();
        push_str(&mut title, "Showcases (");
        push_decimal(&mut title, showcases.len() as u64);
        push_str(&mut title, ")");
        push_line(&mut v, ProfileLine::Heading(title));
        let ghost start = lines_view(v@);
        let mut i: usize = 0;
        while i < showcases.len()
            invariant
                i <= showcases@.len(),
                lines_view(v@) == start + showcase_lines(showcases@.take(i as int)),
            decreases showcases@.len() - i,
        {
            push_line(&mut v, ProfileLine::Blank);
            push_line(&mut v, ProfileLine::Markdown(showcase_markdown(&showcases[i])));
            proof {
                let t = showcases@.take(i + 1);
                assert(t.drop_last() =~= showcases@.take(i as int));
                assert(t.last() == showcases@[i as int]);
                assert(lines_view(v@) =~= start + showcase_lines(t));
            }
            i = i + 1;
        }
        assert(showcases@.take(showcases@.len() as int) =~= showcases@);
    }
    proof {
        assert(lines_view(v@) =~= profile_lines_spec(
            *p,
            country_label@,
            match current_time {
                Some(t) => Some(t@),
                None => None,
            },
            showcases@,
        ));
    }
    v
}

// ---------------------------------------------------------------------------
// The late.fetch strip

/// The date `chrono` writes for an instant, given in microseconds since
/// the Unix epoch, with the format `%Y-%m-%d`, or `None` when the instant
/// is out of `chrono`'s range.
pub uninterp spec fn utc_date_text(us: i64) -> Option<Seq<char>>;

/// Calls `DateTime::from_timestamp_micros(us)` and, when it gives an
/// instant, `format("%Y-%m-%d").to_string()`. The contract only names the
/// text.
#[verifier::external_body]
fn format_utc_date(us: i64) -> (r: Option<String>)
    ensures
        match r {
            Some(t) => utc_date_text(us) == Some(t@),
            None => utc_date_text(us) is None,
        },
{
    chrono::DateTime::from_timestamp_micros(us).map(|d| d.format("%Y-%m-%d").to_string())
}

/// When the profile was created, as a date, or `unknown`.
pub open spec fn created_text(created_at: Option<i64>) -> Seq<char> {
    match created_at {
        Some(us) => match utc_date_text(us) {
            Some(t) => t,
            None => "unknown"@,
        },
        None => "unknown"@,
    }
}

pub fn format_created_at(created_at: Option<i64>) -> (r: String)
    ensures
        r@ == created_text(created_at),
{
    match created_at {
        Some(us) => match format_utc_date(us) {
            Some(t) => t,
            None => "unknown".to_owned(),
        },
        None => "unknown".to_owned(),
    }
}

/// How a piece of the strip is drawn.
#[derive(Clone, Copy, Debug, PartialEq, Eq, Structural)]
pub enum FetchTone {
    Plain,
    Label,
    Value,
    Separator,
}

#[derive(Clone, Debug)]
pub struct FetchCell {
    pub text: String,
    pub tone: FetchTone,
}

pub open spec fn fetch_view(v: Seq<FetchCell>) -> Seq<(Seq<char>, FetchTone)> {
    v.map_values(|c: FetchCell| (c.text@, c.tone))
}

fn push_fetch(v: &mut Vec<FetchCell>, text: String, tone: FetchTone)
    ensures
        fetch_view(final(v)@) == fetch_view(old(v)@).push((text@, tone)),
{
    let ghost t = text@;
    v.push(FetchCell { text, tone });
    assert(fetch_view(v@) =~= fetch_view(old(v)@).push((t, tone)));
}

/// A label padded to nine characters, then a space.
pub open spec fn padded_label(label: Seq<char>) -> Seq<char> {
    label + crate::booth::spaces(9 - label.len()) + " "@
}

fn pad_label(label: &str) -> (r: String)
    ensures
        r@ == padded_label(label@),
{
    let mut out = String::new();
    push_str(&mut out, label);
    let n = label.unicode_len();
    let mut k = n;
    while k < 9
        invariant
            n == label@.len(),
            n <= k <= 9 || (n > 9 && k == n),
            out@ == label@ + crate::booth::spaces(k - n),
        decreases 9 - k,
    {
        push_char(&mut out, ' ');
        k = k + 1;
        assert(out@ =~= label@ + crate::booth::spaces(k - n));
    }
    push_char(&mut out, ' ');
    proof {
        reveal_strlit(" ");
        assert(out@ =~= padded_label(label@));
    }
    out
}

/// Two label/value cells side by side: the first padded out to `col_w`
/// columns (keeping two free), then a separator and the second.
pub open spec fn two_cells_spec(
    a_label: Seq<char>,
    a_value: Seq<char>,
    b_label: Seq<char>,
    b_value: Seq<char>,
    col_w: usize,
) -> Seq<(Seq<char>, FetchTone)> {
    seq![
        (padded_label(a_label), FetchTone::Label),
        (a_value, FetchTone::Value),
        (crate::booth::spaces(col_w - (padded_label(a_label).len() + a_value.len() + 2)), FetchTone::Plain),
        ("│ "@, FetchTone::Separator),
        (padded_label(b_label), FetchTone::Label),
        (b_value, FetchTone::Value),
    ]
}

pub fn format_two_cells(a: (&str, &str), b: (&str, &str), col_w: usize) -> (r: Vec<FetchCell>)
    ensures
        fetch_view(r@) == two_cells_spec(a.0@, a.1@, b.0@, b.1@, col_w),
{
    let mut v: Vec<FetchCell> = Vec::new();
    let la = pad_label(a.0);
    // Past `usize::MAX` columns the first cell is wider than any column.
    let pad = match la.as_str().unicode_len().checked_add(a.1.unicode_len()) {
        Some(s) => match s.checked_add(2) {
            Some(used) => if col_w > used {
                col_w - used
            } else {
                0
            },
            None => 0,
        },
        None => 0,
    };
    push_fetch(&mut v, la, FetchTone::Label);
    push_fetch(&mut v, a.1.to_owned(), FetchTone::Value);
    let mut spaces = String::new();
    let mut k: usize = 0;
    while k < pad
        invariant
            k <= pad,
            spaces@ == crate::booth::spaces(k as int),
        decreases pad - k,
    {
        push_char(&mut spaces, ' ');
        k = k + 1;
        assert(spaces@ =~= crate::booth::spaces(k as int));
    }
    push_fetch(&mut v, spaces, FetchTone::Plain);
    push_fetch(&mut v, "│ ".to_owned(), FetchTone::Separator);
    push_fetch(&mut v, pad_label(b.0), FetchTone::Label);
    push_fetch(&mut v, b.1.to_owned(), FetchTone::Value);
    assert(fetch_view(v@) =~= two_cells_spec(a.0@, a.1@, b.0@, b.1@, col_w));
    v
}

/// A value of the strip, or a dash when it is not set.
pub open spec fn or_dash(o: Option<String>) -> Seq<char> {
    match o {
        Some(s) => s@,
        None => "—"@,
    }
}

fn value_or_dash(o: &Option<String>) -> (r: String)
    ensures
        r@ == or_dash(*o),
{
    match o {
        Some(s) => s.clone(),
        None => "—".to_owned(),
    }
}

/// The three rows of the late.fetch strip for `p`: created and theme, IDE
/// and terminal, OS and languages, in columns `inner_w / 2` wide.
/// `theme_label` names the profile's theme.
pub fn fetch_strip_rows(p: &Profile, theme_label: &str, inner_w: usize) -> (r: Vec<Vec<FetchCell>>)
    ensures
        r@.len() == 3,
        fetch_view(r@[0]@) == two_cells_spec(
            "created"@,
            created_text(p.created_at),
            "theme"@,
            theme_label@,
            inner_w / 2,
        ),
        fetch_view(r@[1]@) == two_cells_spec(
            "ide"@,
            or_dash(p.ide),
            "terminal"@,
            or_dash(p.terminal),
            inner_w / 2,
        ),
        fetch_view(r@[2]@) == two_cells_spec(
            "os"@,
            or_dash(p.os),
            "langs"@,
            if p.langs@.len() == 0 {
                "—"@
            } else {
                joined(string_views(p.langs@))
            },
            inner_w / 2,
        ),
{
    let created = format_created_at(p.created_at);
    let ide = value_or_dash(&p.ide);
    let terminal = value_or_dash(&p.terminal);
    let os = value_or_dash(&p.os);
    let langs = if p.langs.len() == 0 {
        "—".to_owned()
    } else {
        match crate::settings::SystemField::Langs.value(p) {
            Some(t) => t,
            None => "—".to_owned(),
        }
    };
    let col_w = inner_w / 2;
    let mut rows: Vec<Vec<FetchCell>> = Vec::new();
    rows.push(format_two_cells(("created", created.as_str()), ("theme", theme_label), col_w));
    rows.push(format_two_cells(("ide", ide.as_str()), ("terminal", terminal.as_str()), col_w));
    rows.push(format_two_cells(("os", os.as_str()), ("langs", langs.as_str()), col_w));
    rows
}

} // verus!
