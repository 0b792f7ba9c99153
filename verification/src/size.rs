use vstd::prelude::*;
use vstd::string::*;

use crate::name_order::same_text;

verus! {

/// The character for a decimal digit.
pub open spec fn digit(d: int) -> char {
    if d == 0 {
        '0'
    } else if d == 1 {
        '1'
    } else if d == 2 {
        '2'
    } else if d == 3 {
        '3'
    } else if d == 4 {
        '4'
    } else if d == 5 {
        '5'
    } else if d == 6 {
        '6'
    } else if d == 7 {
        '7'
    } else if d == 8 {
        '8'
    } else {
        '9'
    }
}

/// A number in decimal, without leading zeros.
pub open spec fn decimal(n: nat) -> Seq<char>
    decreases n,
{
    if n < 10 {
        seq![digit(n as int)]
    } else {
        decimal(n / 10) + seq![digit((n % 10) as int)]
    }
}

/// A number of hundredths written with a point and two decimals.
pub open spec fn fixed(hundredths: nat) -> Seq<char> {
    decimal(hundredths / 100) + seq!['.', digit((hundredths / 10 % 10) as int), digit(
        (hundredths % 10) as int,
    )]
}

/// `n / d` rounded to the nearest whole number, a tie going to the even
/// neighbour.
pub open spec fn round_half_even(n: nat, d: nat) -> nat {
    let q = n / d;
    let r = n % d;
    if 2 * r > d || (2 * r == d && q % 2 == 1) {
        q + 1
    } else {
        q
    }
}

/// How often a byte count can be divided by 1024 before it is below 1024:
/// the index of the unit it is shown in.
pub open spec fn unit_index(bytes: nat) -> nat
    decreases bytes,
{
    if bytes < 1024 {
        0
    } else {
        1 + unit_index(bytes / 1024)
    }
}

/// The number of bytes in one unit: 1024 to the power of its index.
pub open spec fn unit_size(index: nat) -> nat
    decreases index,
{
    if index == 0 {
        1
    } else {
        1024 * unit_size((index - 1) as nat)
    }
}

/// The name of a unit.
pub open spec fn unit_suffix(index: nat) -> Seq<char> {
    if index == 0 {
        "B"@
    } else if index == 1 {
        "KiB"@
    } else if index == 2 {
        "MiB"@
    } else if index == 3 {
        "GiB"@
    } else if index == 4 {
        "TiB"@
    } else if index == 5 {
        "PiB"@
    } else {
        "EiB"@
    }
}

/// A byte count in hundredths of its unit, rounded.
pub open spec fn scaled_hundredths(bytes: nat) -> nat {
    round_half_even(bytes * 100, unit_size(unit_index(bytes)))
}

/// The number part of a size label.
#[derive(Debug, Clone, Copy, PartialEq, Eq, Structural, Hash)]
pub enum Size {
    /// A plain count.
    Usize(usize),
    /// A number of hundredths, shown with two decimals.
    Fixed(u128),
}

/// A size label in its parts: a marker in front, the number, the unit.
#[derive(Debug)]
pub struct SizeString {
    pub prefix: &'static str,
    pub size: Size,
    pub suffix: String,
}

/// A size label as a value.
pub struct SizeStringView {
    pub prefix: Seq<char>,
    pub size: Size,
    pub suffix: Seq<char>,
}

impl View for SizeString {
    type V = SizeStringView;

    open spec fn view(&self) -> SizeStringView {
        SizeStringView { prefix: self.prefix@, size: self.size, suffix: self.suffix@ }
    }
}

impl Size {
    /// The number as it is shown.
    pub open spec fn text(self) -> Seq<char> {
        match self {
            Size::Usize(count) => decimal(count as nat),
            Size::Fixed(hundredths) => fixed(hundredths as nat),
        }
    }

    pub fn new() -> (size: Size)
        ensures
            size == Size::Usize(0),
    {
        Size::Usize(0)
    }

    pub fn to_string(&self) -> (text: String)
        ensures
            text@ == self.text(),
    {
        match self {
            Size::Usize(count) => decimal_string(*count as u128),
            Size::Fixed(hundredths) => {
                let mut text = decimal_string(*hundredths / 100);
                proof {
                    reveal_strlit(".");
                }
                text.append(".");
                text.append(digit_str((*hundredths / 10 % 10) as u8));
                text.append(digit_str((*hundredths % 10) as u8));
                assert(text@ =~= fixed(*hundredths as nat));
                text
            },
        }
    }
}

impl SizeStringView {
    /// The label: the marker and a blank where there is a marker, the
    /// number, and a blank and the unit where there is a unit.
    pub open spec fn text(self) -> Seq<char> {
        (if self.prefix.len() > 0 {
            self.prefix + seq![' ']
        } else {
            Seq::empty()
        }) + self.size.text() + (if self.suffix.len() > 0 {
            seq![' '] + self.suffix
        } else {
            Seq::empty()
        })
    }

    /// The label of a directory with that many children.
    pub open spec fn of_children(children: nat) -> SizeStringView {
        SizeStringView {
            prefix: Seq::empty(),
            size: Size::Usize(children as usize),
            suffix: Seq::empty(),
        }
    }

    /// The label of a file of that many bytes.
    pub open spec fn of_bytes(bytes: nat) -> SizeStringView {
        SizeStringView {
            prefix: Seq::empty(),
            size: Size::Fixed(scaled_hundredths(bytes) as u128),
            suffix: unit_suffix(unit_index(bytes)),
        }
    }

    /// The same label, marked as reached through a link.
    pub open spec fn linked(self) -> SizeStringView {
        SizeStringView { prefix: "->"@, ..self }
    }
}

impl SizeString {
    pub fn new() -> (label: SizeString)
        ensures
            label@ == (SizeStringView {
                prefix: Seq::empty(),
                size: Size::Usize(0),
                suffix: Seq::empty(),
            }),
    {
        proof {
            reveal_strlit("");
        }
        let label = SizeString { prefix: "", size: Size::new(), suffix: String::new() };
        assert(label@.prefix =~= Seq::empty());
        label
    }

    pub fn to_string(&self) -> (text: String)
        ensures
            text@ == self@.text(),
    {
        let mut s = String::new();
        proof {
            reveal_strlit(" ");
        }
        if !self.prefix.is_empty() {
            s.append(self.prefix);
            s.append(" ");
        }
        s.append(self.size.to_string().as_str());
        if !self.suffix.as_str().is_empty() {
            s.append(" ");
            s.append(self.suffix.as_str());
        }
        assert(s@ =~= self@.text());
        s
    }

    /// The label of a directory: the number of its children.
    pub fn of_children(children: usize) -> (label: SizeString)
        ensures
            label@ == SizeStringView::of_children(children as nat),
    {
        let mut label = SizeString::new();
        label.size = Size::Usize(children);
        label
    }

    /// The label of a file: its size in the largest unit that leaves it at
    /// one or more, with two decimals.
    pub fn of_bytes(bytes: u64) -> (label: SizeString)
        ensures
            label@ == SizeStringView::of_bytes(bytes as nat),
    {
        let index = unit_of(bytes);
        let unit = bytes_per_unit(index);
        let n: u128 = bytes as u128 * 100;
        let q = n / unit;
        let r = n % unit;
        assert(q <= n) by (nonlinear_arith)
            requires
                q == n / unit,
                unit >= 1,
        ;
        assert(r < unit) by (nonlinear_arith)
            requires
                r == n % unit,
                unit >= 1,
        ;
        let hundredths = if 2 * r > unit || (2 * r == unit && q % 2 == 1) {
            q + 1
        } else {
            q
        };
        let mut label = SizeString::new();
        label.size = Size::Fixed(hundredths);
        label.suffix = String::from_str(unit_name(index));
        label
    }

    /// Marks the label as reached through a link.
    pub fn mark_linked(&mut self)
        ensures
            final(self)@ == old(self)@.linked(),
    {
        self.prefix = "->";
    }
}

/// The text for one decimal digit.
fn digit_str(d: u8) -> (text: &'static str)
    requires
        d < 10,
    ensures
        text@ == seq![digit(d as int)],
{
    proof {
        reveal_strlit("0");
        reveal_strlit("1");
        reveal_strlit("2");
        reveal_strlit("3");
        reveal_strlit("4");
        reveal_strlit("5");
        reveal_strlit("6");
        reveal_strlit("7");
        reveal_strlit("8");
        reveal_strlit("9");
    }
    let text = if d == 0 {
        "0"
    } else if d == 1 {
        "1"
    } else if d == 2 {
        "2"
    } else if d == 3 {
        "3"
    } else if d == 4 {
        "4"
    } else if d == 5 {
        "5"
    } else if d == 6 {
        "6"
    } else if d == 7 {
        "7"
    } else if d == 8 {
        "8"
    } else {
        "9"
    };
    assert(text@ =~= seq![digit(d as int)]);
    text
}

/// Writes a number in decimal.
pub fn decimal_string(n: u128) -> (text: String)
    ensures
        text@ == decimal(n as nat),
    decreases n,
{
    if n < 10 {
        String::from_str(digit_str(n as u8))
    } else {
        let mut text = decimal_string(n / 10);
        text.append(digit_str((n % 10) as u8));
        text
    }
}

/// Picks the unit for a byte count.
fn unit_of(bytes: u64) -> (index: u8)
    ensures
        index == unit_index(bytes as nat),
        index <= 6,
{
    proof {
        reveal_with_fuel(unit_index, 8);
    }
    if bytes < 1024 {
        0
    } else if bytes < 1048576 {
        1
    } else if bytes < 1073741824 {
        2
    } else if bytes < 1099511627776 {
        3
    } else if bytes < 1125899906842624 {
        4
    } else if bytes < 1152921504606846976 {
        5
    } else {
        6
    }
}

/// The number of bytes in a unit.
fn bytes_per_unit(index: u8) -> (unit: u128)
    requires
        index <= 6,
    ensures
        unit == unit_size(index as nat),
        1 <= unit <= 1152921504606846976,
{
    proof {
        reveal_with_fuel(unit_size, 8);
    }
    if index == 0 {
        1
    } else if index == 1 {
        1024
    } else if index == 2 {
        1048576
    } else if index == 3 {
        1073741824
    } else if index == 4 {
        1099511627776
    } else if index == 5 {
        1125899906842624
    } else {
        1152921504606846976
    }
}

/// The name of a unit.
fn unit_name(index: u8) -> (name: &'static str)
    ensures
        name@ == unit_suffix(index as nat),
{
    if index == 0 {
        "B"
    } else if index == 1 {
        "KiB"
    } else if index == 2 {
        "MiB"
    } else if index == 3 {
        "GiB"
    } else if index == 4 {
        "TiB"
    } else if index == 5 {
        "PiB"
    } else {
        "EiB"
    }
}

/// How many links a resolution follows before it gives up.
pub const MAX_LINK_DEPTH: usize = 40;

/// What was found at a path.
#[derive(Debug)]
pub enum Probe {
    /// A file of `len` bytes.
    File { len: u64 },
    /// A directory with that many direct children.
    Directory { children: usize },
    /// A link to `target`.
    Link { target: String },
    /// Nothing that could be read.
    Unreadable,
}

/// A probe as a value.
pub enum ProbeView {
    File { len: u64 },
    Directory { children: usize },
    Link { target: Seq<char> },
    Unreadable,
}

impl View for Probe {
    type V = ProbeView;

    open spec fn view(&self) -> ProbeView {
        match self {
            Probe::File { len } => ProbeView::File { len: *len },
            Probe::Directory { children } => ProbeView::Directory { children: *children },
            Probe::Link { target } => ProbeView::Link { target: target@ },
            Probe::Unreadable => ProbeView::Unreadable,
        }
    }
}

/// What a resolution asks for next.
#[derive(Debug)]
pub enum Resolution {
    /// The label is known.
    Label(String),
    /// The path has to be probed, and the probe handed back.
    Follow(String),
}

/// A resolution step as a value.
pub enum ResolutionView {
    Label(Seq<char>),
    Follow(Seq<char>),
}

impl View for Resolution {
    type V = ResolutionView;

    open spec fn view(&self) -> ResolutionView {
        match self {
            Resolution::Label(label) => ResolutionView::Label(label@),
            Resolution::Follow(path) => ResolutionView::Follow(path@),
        }
    }
}

/// The size of one entry in the making: the path that is being looked at,
/// how many links have been followed to get there, and whether the entry is
/// a link in the first place.
pub struct SizeResolver {
    current: String,
    depth: usize,
    linked: bool,
}

/// A resolver as a value.
pub struct ResolverView {
    pub current: Seq<char>,
    pub depth: nat,
    pub linked: bool,
}

impl View for SizeResolver {
    type V = ResolverView;

    closed spec fn view(&self) -> ResolverView {
        ResolverView { current: self.current@, depth: self.depth as nat, linked: self.linked }
    }
}

impl ResolverView {
    /// A resolver at its start.
    pub open spec fn start(path: Seq<char>, is_link: bool) -> ResolverView {
        ResolverView { current: path, depth: 0, linked: is_link }
    }

    /// The label with the link marker where a link led to it.
    pub open spec fn marked(self, label: SizeStringView) -> Seq<char> {
        if self.linked {
            label.linked().text()
        } else {
            label.text()
        }
    }

    /// Whether a link to `target` is followed: not where it points back at
    /// the path it was found at, and not beyond the depth limit.
    pub open spec fn follows(self, target: Seq<char>) -> bool {
        target != self.current && self.depth < MAX_LINK_DEPTH
    }

    /// What the resolver answers to a probe. A file gives its scaled size, a
    /// directory the number of its children, both marked where a link led
    /// there. A link is followed, unless it points at itself or the chain has
    /// grown too long: then it counts as broken, as does a link whose target
    /// cannot be read. What is unreadable and no link has no label.
    pub open spec fn answer(self, found: ProbeView) -> ResolutionView {
        match found {
            ProbeView::File { len } => ResolutionView::Label(
                self.marked(SizeStringView::of_bytes(len as nat)),
            ),
            ProbeView::Directory { children } => ResolutionView::Label(
                self.marked(SizeStringView::of_children(children as nat)),
            ),
            ProbeView::Link { target } => if self.follows(target) {
                ResolutionView::Follow(target)
            } else {
                ResolutionView::Label("Broken Link"@)
            },
            ProbeView::Unreadable => if self.linked {
                ResolutionView::Label("Broken Link"@)
            } else {
                ResolutionView::Label(Seq::empty())
            },
        }
    }

    /// The resolver after a probe: one link further where it follows one,
    /// unchanged otherwise.
    pub open spec fn after(self, found: ProbeView) -> ResolverView {
        match found {
            ProbeView::Link { target } => if self.follows(target) {
                ResolverView { current: target, depth: self.depth + 1, linked: true }
            } else {
                self
            },
            _ => self,
        }
    }

    /// The label that a run of probes leads to, each probe answering the
    /// request before it; `None` where the probes run out first.
    pub open spec fn outcome(self, probes: Seq<ProbeView>) -> Option<Seq<char>>
        decreases probes.len(),
    {
        if probes.len() == 0 {
            None
        } else {
            match self.answer(probes[0]) {
                ResolutionView::Label(label) => Some(label),
                ResolutionView::Follow(_) => self.after(probes[0]).outcome(probes.drop_first()),
            }
        }
    }
}

/// A resolution ends: however the links are laid out, in a circle too, the
/// label is there after one probe more than the depth limit at the latest.
pub proof fn lemma_resolution_ends(state: ResolverView, probes: Seq<ProbeView>)
    requires
        state.depth <= MAX_LINK_DEPTH,
        probes.len() > MAX_LINK_DEPTH - state.depth,
    ensures
        state.outcome(probes) is Some,
    decreases probes.len(),
{
    match state.answer(probes[0]) {
        ResolutionView::Label(_) => {},
        ResolutionView::Follow(_) => {
            lemma_resolution_ends(state.after(probes[0]), probes.drop_first());
        },
    }
}

/// A link that points at itself is broken, at once.
pub proof fn lemma_self_link_is_broken(state: ResolverView)
    ensures
        state.answer(ProbeView::Link { target: state.current }) == ResolutionView::Label(
            "Broken Link"@,
        ),
{
}

impl SizeResolver {
    /// Starts resolving the size of the entry at `path`.
    pub fn new(path: String, is_link: bool) -> (resolver: SizeResolver)
        ensures
            resolver@ == ResolverView::start(path@, is_link),
            resolver@.depth <= MAX_LINK_DEPTH,
    {
        SizeResolver { current: path, depth: 0, linked: is_link }
    }

    /// The path whose probe the resolver waits for.
    pub fn current(&self) -> (path: &String)
        ensures
            path@ == self@.current,
    {
        &self.current
    }

    /// How many links have been followed.
    pub fn depth(&self) -> (depth: usize)
        ensures
            depth == self@.depth,
    {
        self.depth
    }

    fn finish(&self, label: SizeString) -> (text: String)
        ensures
            text@ == self@.marked(label@),
    {
        let mut label = label;
        if self.linked {
            label.mark_linked();
        }
        label.to_string()
    }

    /// Takes the probe of the current path and says what comes next: the
    /// label, or the path to probe.
    pub fn step(&mut self, found: Probe) -> (next: Resolution)
        requires
            old(self)@.depth <= MAX_LINK_DEPTH,
        ensures
            next@ == old(self)@.answer(found@),
            final(self)@ == old(self)@.after(found@),
            final(self)@.depth <= MAX_LINK_DEPTH,
    {
        match found {
            Probe::File { len } => Resolution::Label(self.finish(SizeString::of_bytes(len))),
            Probe::Directory { children } => Resolution::Label(
                self.finish(SizeString::of_children(children)),
            ),
            Probe::Link { target } => {
                if self.depth >= MAX_LINK_DEPTH || same_text(
                    target.as_str(),
                    self.current.as_str(),
                ) {
                    Resolution::Label(String::from_str("Broken Link"))
                } else {
                    self.current = target.clone();
                    self.depth = self.depth + 1;
                    self.linked = true;
                    Resolution::Follow(target)
                }
            },
            Probe::Unreadable => {
                if self.linked {
                    Resolution::Label(String::from_str("Broken Link"))
                } else {
                    Resolution::Label(String::new())
                }
            },
        }
    }
}

} // verus!
