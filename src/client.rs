//! The client session: which window owns the settings, the current snapshot,
//! and what each event asks of the caller. The caller performs the windowing
//! system's reads and hands their results back; the session answers with the
//! callbacks to dispatch, in order.
use vstd::prelude::*;
use crate::codec::{decode, decode_spec, names_unique};
use crate::setting::{models, Setting, SettingModel, XSettingsResult, XSettingsSetting};
use crate::snapshot::{apply_diff, change_models, diff, find, lookup, Change, ChangeModel};

verus! {

/// The event mask a caller registers on the owner window: property changes
/// and structure changes (its destruction).
pub const WATCH_MASK: i64 = 0x0042_0000;

/// A windowing-system event, reduced to what the session may care about.
#[derive(Copy, Clone, Debug, PartialEq, Eq, Structural)]
pub enum Event {
    /// A property of `window` named `atom` changed.
    PropertyNotify { window: u64, atom: u64 },
    /// A settings manager announced that it took the selection `selection`.
    ManagerAnnounce { selection: u64 },
    /// The owner of selection `selection` released it.
    SelectionClear { selection: u64 },
    /// `window` was destroyed.
    DestroyNotify { window: u64 },
    /// Anything else.
    Other,
}

/// What an event asks of the caller before the session can go on.
#[derive(Copy, Clone, Debug, PartialEq, Eq, Structural)]
pub enum Need {
    /// The event is not about settings.
    Nothing,
    /// Look up the current owner of the selection, read its settings property,
    /// and call `owner_changed`.
    Owner,
    /// Read the settings property of `window` and call `property_changed`.
    Property { window: u64 },
}

/// A callback to invoke.
pub enum Dispatch {
    /// The notify callback, once per changed setting.
    Notify(Change),
    /// The watch callback: start or stop watching `window` with `mask`.
    Watch { window: u64, is_start: bool, mask: i64 },
}

/// Mathematical model of a callback to invoke.
pub enum DispatchModel {
    Notify(ChangeModel),
    Watch { window: u64, is_start: bool, mask: i64 },
}

impl View for Dispatch {
    type V = DispatchModel;

    open spec fn view(&self) -> DispatchModel {
        match self {
            Dispatch::Notify(c) => DispatchModel::Notify(c@),
            Dispatch::Watch { window, is_start, mask } => DispatchModel::Watch {
                window: *window,
                is_start: *is_start,
                mask: *mask,
            },
        }
    }
}

/// The models of a sequence of callbacks.
pub open spec fn dispatch_models(s: Seq<Dispatch>) -> Seq<DispatchModel> {
    s.map_values(|d: Dispatch| d@)
}

/// One notify callback per notification, in order.
pub open spec fn notify_all(cs: Seq<ChangeModel>) -> Seq<DispatchModel> {
    cs.map_values(|c: ChangeModel| DispatchModel::Notify(c))
}

/// What an operation of the session did: its result code and the callbacks
/// to invoke, in order.
pub struct Outcome {
    pub result: XSettingsResult,
    pub dispatches: Vec<Dispatch>,
}

/// Mathematical model of a session.
pub struct ClientModel {
    pub screen: i32,
    pub selection_atom: u64,
    pub property_atom: u64,
    pub owner: Option<u64>,
    pub snapshot: Seq<SettingModel>,
}

/// A sound session: names are unique, and an unbound session holds no settings.
pub open spec fn wf_model(m: ClientModel) -> bool {
    &&& names_unique(m.snapshot)
    &&& (m.owner is None ==> m.snapshot.len() == 0)
}

/// What an event asks of a session in state `m`.
pub open spec fn need_of(m: ClientModel, ev: Event) -> Need {
    match ev {
        Event::PropertyNotify { window, atom } => if m.owner == Some(window) && atom
            == m.property_atom {
            Need::Property { window }
        } else {
            Need::Nothing
        },
        Event::ManagerAnnounce { selection } => if selection == m.selection_atom {
            Need::Owner
        } else {
            Need::Nothing
        },
        Event::SelectionClear { selection } => if selection == m.selection_atom {
            Need::Owner
        } else {
            Need::Nothing
        },
        Event::DestroyNotify { window } => if m.owner == Some(window) {
            Need::Owner
        } else {
            Need::Nothing
        },
        Event::Other => Need::Nothing,
    }
}

/// The bytes of a property read: the property's bytes, `None` where the
/// property is absent, or the error that the read met.
pub open spec fn blob_view(blob: Result<Option<&[u8]>, XSettingsResult>) -> Result<
    Option<Seq<u8>>,
    XSettingsResult,
> {
    match blob {
        Err(e) => Err(e),
        Ok(None) => Ok(None),
        Ok(Some(b)) => Ok(Some(b@)),
    }
}

/// The settings a property read stands for: an absent property holds none,
/// and a read that failed gives its error.
pub open spec fn blob_settings(blob: Result<Option<Seq<u8>>, XSettingsResult>) -> Result<
    Seq<SettingModel>,
    XSettingsResult,
> {
    match blob {
        Err(e) => Err(e),
        Ok(None) => Ok(seq![]),
        Ok(Some(b)) => decode_spec(b),
    }
}

/// The callbacks of leaving the owner of state `m`: `Deleted` for every
/// setting in snapshot order, then the watch callback that stops watching.
pub open spec fn unbind_dispatches(m: ClientModel) -> Seq<DispatchModel> {
    match m.owner {
        None => seq![],
        Some(w) => notify_all(diff(m.snapshot, seq![])) + seq![
            DispatchModel::Watch { window: w, is_start: false, mask: WATCH_MASK },
        ],
    }
}

/// The callbacks of binding to `w` with settings `s`: the watch callback that
/// starts watching, then `New` for every setting in blob order.
pub open spec fn bind_dispatches(w: u64, s: Seq<SettingModel>) -> Seq<DispatchModel> {
    seq![DispatchModel::Watch { window: w, is_start: true, mask: WATCH_MASK }] + notify_all(
        diff(seq![], s),
    )
}

/// A client session for one screen.
pub struct Client {
    screen: i32,
    selection_atom: u64,
    property_atom: u64,
    owner: Option<u64>,
    snapshot: Vec<XSettingsSetting>,
}

impl View for Client {
    type V = ClientModel;

    closed spec fn view(&self) -> ClientModel {
        ClientModel {
            screen: self.screen,
            selection_atom: self.selection_atom,
            property_atom: self.property_atom,
            owner: self.owner,
            snapshot: models(self.snapshot@),
        }
    }
}

fn push_notifications(out: &mut Vec<Dispatch>, changes: &Vec<Change>)
    ensures
        dispatch_models(final(out)@) == dispatch_models(old(out)@) + notify_all(
            change_models(changes@),
        ),
{
    let ghost start = dispatch_models(out@);
    let ghost cm = change_models(changes@);
    let mut i: usize = 0;
    while i < changes.len()
        invariant
            cm == change_models(changes@),
            i <= changes@.len(),
            dispatch_models(out@) == start + notify_all(cm.subrange(0, i as int)),
        decreases changes@.len() - i,
    {
        let ghost prev = dispatch_models(out@);
        let c = &changes[i];
        out.push(Dispatch::Notify(Change { action: c.action, setting: c.setting.copy() }));
        assert(dispatch_models(out@) =~= prev.push(DispatchModel::Notify(cm[i as int])));
        assert(notify_all(cm.subrange(0, i + 1)) =~= notify_all(cm.subrange(0, i as int)).push(
            DispatchModel::Notify(cm[i as int]),
        ));
        i = i + 1;
    }
    assert(cm.subrange(0, changes@.len() as int) =~= cm);
}

fn decode_blob(blob: Result<Option<&[u8]>, XSettingsResult>) -> (r: Result<Vec<XSettingsSetting>, XSettingsResult>)
    ensures
        match r {
            Ok(v) => blob_settings(blob_view(blob)) == Ok::<Seq<SettingModel>, XSettingsResult>(
                models(v@),
            ),
            Err(e) => blob_settings(blob_view(blob)) == Err::<Seq<SettingModel>, XSettingsResult>(
                e,
            ),
        },
{
    match blob {
        Err(e) => Err(e),
        Ok(None) => {
            let v: Vec<XSettingsSetting> = Vec::new();
            assert(models(v@) =~= seq![]);
            Ok(v)
        },
        Ok(Some(b)) => decode(b),
    }
}

impl Client {
    /// The session is sound.
    pub open spec fn wf(&self) -> bool {
        wf_model(self@)
    }

    /// A session for `screen`, unbound, with no settings. `selection_atom`
    /// names the settings selection of the screen and `property_atom` the
    /// settings property.
    pub fn new(screen: i32, selection_atom: u64, property_atom: u64) -> (r: Client)
        ensures
            r.wf(),
            r@ == (ClientModel {
                screen,
                selection_atom,
                property_atom,
                owner: None,
                snapshot: seq![],
            }),
    {
        let r = Client { screen, selection_atom, property_atom, owner: None, snapshot: Vec::new() };
        assert(models(r.snapshot@) =~= seq![]);
        r
    }

    /// The screen of the session.
    pub fn screen(&self) -> (r: i32)
        ensures
            r == self@.screen,
    {
        self.screen
    }

    /// The atom of the settings selection.
    pub fn selection_atom(&self) -> (r: u64)
        ensures
            r == self@.selection_atom,
    {
        self.selection_atom
    }

    /// The atom of the settings property.
    pub fn property_atom(&self) -> (r: u64)
        ensures
            r == self@.property_atom,
    {
        self.property_atom
    }

    /// The window that owns the settings, if the session is bound.
    pub fn owner(&self) -> (r: Option<u64>)
        ensures
            r == self@.owner,
    {
        self.owner
    }

    /// What `ev` asks of the caller. Events that are not about settings ask
    /// nothing, and nothing changes.
    pub fn classify(&self, ev: &Event) -> (r: Need)
        ensures
            r == need_of(self@, *ev),
    {
        match *ev {
            Event::PropertyNotify { window, atom } => {
                if self.owner == Some(window) && atom == self.property_atom {
                    Need::Property { window }
                } else {
                    Need::Nothing
                }
            },
            Event::ManagerAnnounce { selection } | Event::SelectionClear { selection } => {
                if selection == self.selection_atom {
                    Need::Owner
                } else {
                    Need::Nothing
                }
            },
            Event::DestroyNotify { window } => {
                if self.owner == Some(window) {
                    Need::Owner
                } else {
                    Need::Nothing
                }
            },
            Event::Other => Need::Nothing,
        }
    }

    /// The owner of the settings was looked up again: `owner` is the window
    /// found, `blob` the read of its settings property (`Ok(None)` where the
    /// property is absent, an error where the read failed). A bound session
    /// first leaves its owner (`Deleted` for every setting, then the watch
    /// callback that stops). With an owner and a blob that decodes, it binds
    /// (the watch callback that starts, then `New` for every setting);
    /// otherwise it stays unbound and the result gives the read or decode
    /// error.
    pub fn owner_changed(&mut self, owner: Option<u64>, blob: Result<Option<&[u8]>, XSettingsResult>) -> (r: Outcome)
        requires
            old(self).wf(),
        ensures
            final(self).wf(),
            final(self)@.screen == old(self)@.screen,
            final(self)@.selection_atom == old(self)@.selection_atom,
            final(self)@.property_atom == old(self)@.property_atom,
            match owner {
                None => {
                    &&& final(self)@.owner is None
                    &&& r.result == XSettingsResult::Success
                    &&& dispatch_models(r.dispatches@) == unbind_dispatches(old(self)@)
                },
                Some(w) => match blob_settings(blob_view(blob)) {
                    Ok(s) => {
                        &&& final(self)@.owner == Some(w)
                        &&& final(self)@.snapshot == s
                        &&& r.result == XSettingsResult::Success
                        &&& dispatch_models(r.dispatches@) == unbind_dispatches(old(self)@)
                            + bind_dispatches(w, s)
                    },
                    Err(e) => {
                        &&& final(self)@.owner is None
                        &&& r.result == e
                        &&& dispatch_models(r.dispatches@) == unbind_dispatches(old(self)@)
                    },
                },
            },
    {
        let mut out: Vec<Dispatch> = Vec::new();
        assert(dispatch_models(out@) =~= seq![]);
        let ghost old_model = self@;
        match self.owner {
            None => {},
            Some(w) => {
                let empty: Vec<XSettingsSetting> = Vec::new();
                assert(models(empty@) =~= seq![]);
                let gone = apply_diff(&self.snapshot, &empty);
                push_notifications(&mut out, &gone);
                let ghost before = dispatch_models(out@);
                out.push(Dispatch::Watch { window: w, is_start: false, mask: WATCH_MASK });
                assert(dispatch_models(out@) =~= before.push(
                    DispatchModel::Watch { window: w, is_start: false, mask: WATCH_MASK },
                ));
                assert(dispatch_models(out@) =~= unbind_dispatches(old_model));
            },
        }
        assert(dispatch_models(out@) =~= unbind_dispatches(old_model));
        self.owner = None;
        self.snapshot = Vec::new();
        assert(models(self.snapshot@) =~= seq![]);
        match owner {
            None => Outcome { result: XSettingsResult::Success, dispatches: out },
            Some(w) => match decode_blob(blob) {
                Err(e) => Outcome { result: e, dispatches: out },
                Ok(settings) => {
                    let ghost before = dispatch_models(out@);
                    out.push(Dispatch::Watch { window: w, is_start: true, mask: WATCH_MASK });
                    let empty: Vec<XSettingsSetting> = Vec::new();
                    assert(models(empty@) =~= seq![]);
                    let fresh = apply_diff(&empty, &settings);
                    let ghost mid = dispatch_models(out@);
                    assert(mid =~= before.push(
                        DispatchModel::Watch { window: w, is_start: true, mask: WATCH_MASK },
                    ));
                    push_notifications(&mut out, &fresh);
                    assert(dispatch_models(out@) =~= before + bind_dispatches(w, models(settings@)));
                    self.owner = Some(w);
                    self.snapshot = settings;
                    Outcome { result: XSettingsResult::Success, dispatches: out }
                },
            },
        }
    }

    /// The settings property of the owner changed; `blob` is the read of what
    /// it holds now (`Ok(None)` where the property is absent, an error where
    /// the read failed). When it decodes, the snapshot is replaced and the
    /// notify callback runs once per entry of the diff. When the read failed
    /// or the blob does not decode, nothing changes and the result gives the
    /// error. An unbound session ignores it.
    pub fn property_changed(&mut self, blob: Result<Option<&[u8]>, XSettingsResult>) -> (r: Outcome)
        requires
            old(self).wf(),
        ensures
            final(self).wf(),
            old(self)@.owner is None ==> {
                &&& final(self)@ == old(self)@
                &&& r.result == XSettingsResult::Success
                &&& r.dispatches@.len() == 0
            },
            old(self)@.owner is Some ==> match blob_settings(blob_view(blob)) {
                Ok(s) => {
                    &&& final(self)@ == (ClientModel { snapshot: s, ..old(self)@ })
                    &&& r.result == XSettingsResult::Success
                    &&& dispatch_models(r.dispatches@) == notify_all(diff(old(self)@.snapshot, s))
                },
                Err(e) => {
                    &&& final(self)@ == old(self)@
                    &&& r.result == e
                    &&& r.dispatches@.len() == 0
                },
            },
    {
        let mut out: Vec<Dispatch> = Vec::new();
        if self.owner.is_none() {
            return Outcome { result: XSettingsResult::Success, dispatches: out };
        }
        match decode_blob(blob) {
            Err(e) => Outcome { result: e, dispatches: out },
            Ok(settings) => {
                let changes = apply_diff(&self.snapshot, &settings);
                assert(dispatch_models(out@) =~= seq![]);
                push_notifications(&mut out, &changes);
                assert(dispatch_models(out@) =~= notify_all(change_models(changes@)));
                self.snapshot = settings;
                Outcome { result: XSettingsResult::Success, dispatches: out }
            },
        }
    }

    /// An owned copy of the setting named `name` in the current snapshot.
    /// The match is exact and case-sensitive; an absent name gives `NoEntry`.
    pub fn get_setting(&self, name: &[u8]) -> (r: Result<Setting, XSettingsResult>)
        ensures
            match lookup(self@.snapshot, name@) {
                None => r == Err::<Setting, XSettingsResult>(XSettingsResult::NoEntry),
                Some(m) => r matches Ok(s) && s@ == m,
            },
    {
        match find(&self.snapshot, name) {
            None => Err(XSettingsResult::NoEntry),
            Some(i) => Ok(Setting::from_raw(self.snapshot[i].copy())),
        }
    }
}

} // verus!
