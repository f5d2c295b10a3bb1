//! The tray controller: the fixed menu it is built with, where its loop is
//! hosted, and the poll discipline of its dispatcher. Events of the native tray
//! layer are queued into the controller; each tick takes at most one pending
//! icon event and at most one pending menu event.

use vstd::prelude::*;

verus! {

/// How the tray icon was clicked.
#[derive(Clone, Copy, Debug, PartialEq, Eq, Structural)]
pub enum ClickKind {
    Left,
    Right,
    Double,
}

/// Whether a menu entry can be activated or only separates others.
#[derive(Clone, Copy, Debug, PartialEq, Eq, Structural)]
pub enum EntryKind {
    Action,
    Separator,
}

/// One entry of the tray menu. A separator has an empty label.
#[derive(Clone, Debug)]
pub struct MenuEntry {
    pub label: String,
    pub enabled: bool,
    pub kind: EntryKind,
}

fn entry(label: &str, kind: EntryKind) -> (r: MenuEntry)
    ensures
        r.label@ == label@,
        r.enabled,
        r.kind == kind,
{
    MenuEntry { label: String::from_str(label), enabled: true, kind }
}

/// The tray menu, built once at startup: two actions, a separator, and "Exit".
/// "Exit" is inert like the other actions: activating it is only reported, it
/// does not end the process.
pub fn tray_menu() -> (r: Vec<MenuEntry>)
    ensures
        r@.len() == 4,
        r@[0].label@ == "Menu #1"@ && r@[0].kind == EntryKind::Action,
        r@[1].label@ == "Menu #2"@ && r@[1].kind == EntryKind::Action,
        r@[2].label@ == ""@ && r@[2].kind == EntryKind::Separator,
        r@[3].label@ == "Exit"@ && r@[3].kind == EntryKind::Action,
        forall|i: int| 0 <= i < 4 ==> #[trigger] r@[i].enabled,
{
    let mut menu: Vec<MenuEntry> = Vec::new();
    menu.push(entry("Menu #1", EntryKind::Action));
    menu.push(entry("Menu #2", EntryKind::Action));
    menu.push(entry("", EntryKind::Separator));
    menu.push(entry("Exit", EntryKind::Action));
    menu
}

/// Which thread hosts the tray's own loop.
#[derive(Clone, Copy, Debug, PartialEq, Eq, Structural)]
pub enum TrayHost {
    /// The tray needs its own toolkit and message loop, on a thread of its own.
    DedicatedThread,
    /// The tray lives in the primary windowing loop.
    EventLoop,
}

/// The startup decision of where the tray loop runs, from whether the
/// platform's tray needs a toolkit loop of its own.
pub fn tray_host(needs_own_loop: bool) -> (r: TrayHost)
    ensures
        r == (if needs_own_loop {
            TrayHost::DedicatedThread
        } else {
            TrayHost::EventLoop
        }),
{
    if needs_own_loop {
        TrayHost::DedicatedThread
    } else {
        TrayHost::EventLoop
    }
}

/// What one poll tick processed, and whether it asks for a capture.
#[derive(Clone, Copy, Debug, PartialEq, Eq, Structural)]
pub struct Tick {
    /// The icon event taken this tick, if one was pending.
    pub icon: Option<ClickKind>,
    /// The menu entry whose activation was taken this tick, if one was pending.
    pub menu: Option<u32>,
    /// Whether the capture service runs now (a left click was taken).
    pub capture: bool,
}

pub ghost struct TrayQueues {
    pub icon: Seq<ClickKind>,
    pub menu: Seq<u32>,
}

/// One tick over the pending events: the queues after it and what it took.
pub open spec fn tick_model(q: TrayQueues) -> (TrayQueues, Tick) {
    let icon = if q.icon.len() > 0 {
        Some(q.icon[0])
    } else {
        None
    };
    let menu = if q.menu.len() > 0 {
        Some(q.menu[0])
    } else {
        None
    };
    let rest = TrayQueues {
        icon: if q.icon.len() > 0 {
            q.icon.drop_first()
        } else {
            q.icon
        },
        menu: if q.menu.len() > 0 {
            q.menu.drop_first()
        } else {
            q.menu
        },
    };
    (rest, Tick { icon, menu, capture: icon == Some(ClickKind::Left) })
}

/// `k` ticks with no new events: the queues after them and each tick's result.
pub open spec fn ticks_model(q: TrayQueues, k: nat) -> (TrayQueues, Seq<Tick>)
    decreases k,
{
    if k == 0 {
        (q, Seq::empty())
    } else {
        let (q1, t) = tick_model(q);
        let (q2, rest) = ticks_model(q1, (k - 1) as nat);
        (q2, seq![t] + rest)
    }
}

/// The icon events taken by a sequence of ticks, in order.
pub open spec fn icons_taken(ts: Seq<Tick>) -> Seq<ClickKind>
    decreases ts.len(),
{
    if ts.len() == 0 {
        Seq::empty()
    } else {
        match ts[0].icon {
            Some(c) => seq![c] + icons_taken(ts.drop_first()),
            None => icons_taken(ts.drop_first()),
        }
    }
}

/// The menu activations taken by a sequence of ticks, in order.
pub open spec fn menus_taken(ts: Seq<Tick>) -> Seq<u32>
    decreases ts.len(),
{
    if ts.len() == 0 {
        Seq::empty()
    } else {
        match ts[0].menu {
            Some(m) => seq![m] + menus_taken(ts.drop_first()),
            None => menus_taken(ts.drop_first()),
        }
    }
}

pub open spec fn min_nat(a: nat, b: nat) -> nat {
    if a <= b {
        a
    } else {
        b
    }
}

/// Poll fairness: over `k` ticks with events pending in both queues, each
/// tick takes at most one event of each kind, and the events taken are the
/// oldest ones, in order, each once: of `M` pending icon events exactly the
/// first `min(k, M)` are taken and the rest stay queued, and likewise for menu
/// events. A left click is answered by a capture on the tick that takes it.
pub proof fn lemma_poll_fairness(q: TrayQueues, k: nat)
    ensures
        ticks_model(q, k).1.len() == k,
        icons_taken(ticks_model(q, k).1) == q.icon.take(min_nat(k, q.icon.len()) as int),
        ticks_model(q, k).0.icon == q.icon.skip(min_nat(k, q.icon.len()) as int),
        menus_taken(ticks_model(q, k).1) == q.menu.take(min_nat(k, q.menu.len()) as int),
        ticks_model(q, k).0.menu == q.menu.skip(min_nat(k, q.menu.len()) as int),
        forall|j: int|
            0 <= j < k ==> (#[trigger] ticks_model(q, k).1[j]).capture == (
            ticks_model(q, k).1[j].icon == Some(ClickKind::Left)),
    decreases k,
{
    if k > 0 {
        let (q1, t) = tick_model(q);
        lemma_poll_fairness(q1, (k - 1) as nat);
        let ts = ticks_model(q, k).1;
        let rest = ticks_model(q1, (k - 1) as nat).1;
        assert(ts == seq![t] + rest);
        assert(ts.drop_first() =~= rest);
        assert(ts[0] == t);
        if q.icon.len() > 0 {
            let m1 = min_nat((k - 1) as nat, q1.icon.len());
            assert(q.icon.take(min_nat(k, q.icon.len()) as int) =~= seq![q.icon[0]] + q1.icon.take(
                m1 as int,
            ));
            assert(q.icon.skip(min_nat(k, q.icon.len()) as int) =~= q1.icon.skip(m1 as int));
        } else {
            assert(q.icon.take(0) =~= Seq::<ClickKind>::empty());
            assert(q1.icon.take(0) =~= Seq::<ClickKind>::empty());
        }
        if q.menu.len() > 0 {
            let n1 = min_nat((k - 1) as nat, q1.menu.len());
            assert(q.menu.take(min_nat(k, q.menu.len()) as int) =~= seq![q.menu[0]] + q1.menu.take(
                n1 as int,
            ));
            assert(q.menu.skip(min_nat(k, q.menu.len()) as int) =~= q1.menu.skip(n1 as int));
        } else {
            assert(q.menu.take(0) =~= Seq::<u32>::empty());
            assert(q1.menu.take(0) =~= Seq::<u32>::empty());
        }
        assert forall|j: int| 0 <= j < k implies (#[trigger] ts[j]).capture == (ts[j].icon == Some(
            ClickKind::Left,
        )) by {
            if j > 0 {
                assert(ts[j] == rest[j - 1]);
            }
        }
    } else {
        assert(q.icon.take(0) =~= Seq::<ClickKind>::empty());
        assert(q.menu.take(0) =~= Seq::<u32>::empty());
        assert(q.icon.skip(0) =~= q.icon);
        assert(q.menu.skip(0) =~= q.menu);
    }
}

/// The dispatcher of tray events: the events handed over by the native layer
/// and not yet processed, oldest first.
pub struct TrayController {
    pub icon_events: Vec<ClickKind>,
    pub menu_events: Vec<u32>,
}

impl View for TrayController {
    type V = TrayQueues;

    open spec fn view(&self) -> TrayQueues {
        TrayQueues { icon: self.icon_events@, menu: self.menu_events@ }
    }
}

impl TrayController {
    /// A controller with nothing pending.
    pub fn new() -> (r: TrayController)
        ensures
            r@.icon.len() == 0,
            r@.menu.len() == 0,
    {
        TrayController { icon_events: Vec::new(), menu_events: Vec::new() }
    }

    /// Queues an interaction with the tray icon.
    pub fn push_icon_event(&mut self, click: ClickKind)
        ensures
            final(self)@.icon == old(self)@.icon.push(click),
            final(self)@.menu == old(self)@.menu,
    {
        self.icon_events.push(click);
    }

    /// Queues the activation of the menu entry with this identifier.
    pub fn push_menu_event(&mut self, entry_id: u32)
        ensures
            final(self)@.menu == old(self)@.menu.push(entry_id),
            final(self)@.icon == old(self)@.icon,
    {
        self.menu_events.push(entry_id);
    }

    /// One poll tick: takes the oldest pending icon event and the oldest
    /// pending menu event, each if there is one, and asks for a capture on a
    /// left click. It never waits.
    pub fn tick(&mut self) -> (t: Tick)
        ensures
            (final(self)@, t) == tick_model(old(self)@),
    {
        let icon = if self.icon_events.len() > 0 {
            Some(self.icon_events.remove(0))
        } else {
            None
        };
        let menu = if self.menu_events.len() > 0 {
            Some(self.menu_events.remove(0))
        } else {
            None
        };
        let capture = match icon {
            Some(ClickKind::Left) => true,
            _ => false,
        };
        proof {
            assert(self@.icon =~= tick_model(old(self)@).0.icon);
            assert(self@.menu =~= tick_model(old(self)@).0.menu);
        }
        Tick { icon, menu, capture }
    }
}

} // verus!
