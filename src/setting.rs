//! Settings and their values: the decoded records, the owned copies a
//! caller keeps, and the views it borrows.
use vstd::prelude::*;
use vstd::std_specs::cmp::PartialEqSpec;

verus! {

/// What happened to a setting between two snapshots.
#[derive(Copy, Clone, Debug, PartialEq, Eq, Structural)]
pub enum XSettingsAction {
    New,
    Changed,
    Deleted,
}

/// The type tag of a setting.
#[derive(Copy, Clone, Debug, PartialEq, Eq, Structural)]
pub enum XSettingsType {
    Int,
    String,
    Color,
    Undefined,
}

/// Result codes of the session's operations.
#[derive(Copy, Clone, Debug, PartialEq, Eq, Structural)]
pub enum XSettingsResult {
    Success,
    NoMem,
    Access,
    Failed,
    NoEntry,
    DuplicateEntry,
}

/// A color with four 16-bit channels.
#[derive(Copy, Clone, Debug, PartialEq, Eq, Structural)]
pub struct XSettingsColor {
    pub red: u16,
    pub green: u16,
    pub blue: u16,
    pub alpha: u16,
}

/// The value of a setting.
#[derive(Clone, Debug)]
pub enum SettingData {
    Int(i32),
    String(Vec<u8>),
    Color(XSettingsColor),
    Undefined,
}

/// Mathematical model of a setting's value: strings are byte sequences.
pub enum ValueModel {
    Int(i32),
    Str(Seq<u8>),
    Color(XSettingsColor),
    Undefined,
}

impl View for SettingData {
    type V = ValueModel;

    open spec fn view(&self) -> ValueModel {
        match self {
            SettingData::Int(i) => ValueModel::Int(*i),
            SettingData::String(s) => ValueModel::Str(s@),
            SettingData::Color(c) => ValueModel::Color(*c),
            SettingData::Undefined => ValueModel::Undefined,
        }
    }
}

/// The type tag that goes with a value.
pub open spec fn type_of(v: ValueModel) -> XSettingsType {
    match v {
        ValueModel::Int(_) => XSettingsType::Int,
        ValueModel::Str(_) => XSettingsType::String,
        ValueModel::Color(_) => XSettingsType::Color,
        ValueModel::Undefined => XSettingsType::Undefined,
    }
}

/// One decoded setting: name, value and the serial of its last change.
#[derive(Clone, Debug)]
pub struct XSettingsSetting {
    pub name: Vec<u8>,
    pub data: SettingData,
    pub last_change_serial: u32,
}

/// Mathematical model of a setting.
pub struct SettingModel {
    pub name: Seq<u8>,
    pub value: ValueModel,
    pub serial: u32,
}

impl View for XSettingsSetting {
    type V = SettingModel;

    open spec fn view(&self) -> SettingModel {
        SettingModel { name: self.name@, value: self.data@, serial: self.last_change_serial }
    }
}

/// Two settings are the same when name and value agree; the serial is not compared.
pub open spec fn same_setting(a: SettingModel, b: SettingModel) -> bool {
    a.name == b.name && a.value == b.value
}

/// The models of a sequence of settings.
pub open spec fn models(s: Seq<XSettingsSetting>) -> Seq<SettingModel> {
    s.map_values(|x: XSettingsSetting| x@)
}

/// Byte-wise equality of two byte strings.
pub fn bytes_equal(a: &[u8], b: &[u8]) -> (r: bool)
    ensures
        r == (a@ == b@),
{
    if a.len() != b.len() {
        return false;
    }
    let mut i: usize = 0;
    while i < a.len()
        invariant
            a@.len() == b@.len(),
            i <= a@.len(),
            a@.subrange(0, i as int) == b@.subrange(0, i as int),
        decreases a@.len() - i,
    {
        if a[i] != b[i] {
            assert(a@[i as int] != b@[i as int]);
            return false;
        }
        assert(a@.subrange(0, i + 1) =~= a@.subrange(0, i as int).push(a@[i as int]));
        assert(b@.subrange(0, i + 1) =~= b@.subrange(0, i as int).push(b@[i as int]));
        i = i + 1;
    }
    assert(a@ =~= a@.subrange(0, i as int));
    assert(b@ =~= b@.subrange(0, i as int));
    true
}

/// A fresh copy of a byte string.
pub fn copy_bytes(a: &[u8]) -> (r: Vec<u8>)
    ensures
        r@ == a@,
{
    let mut r: Vec<u8> = Vec::with_capacity(a.len());
    let mut i: usize = 0;
    while i < a.len()
        invariant
            i <= a@.len(),
            r@ == a@.subrange(0, i as int),
        decreases a@.len() - i,
    {
        r.push(a[i]);
        assert(a@.subrange(0, i + 1) =~= a@.subrange(0, i as int).push(a@[i as int]));
        i = i + 1;
    }
    assert(a@ =~= a@.subrange(0, i as int));
    r
}

impl SettingData {
    /// The type tag of this value.
    pub fn setting_type(&self) -> (r: XSettingsType)
        ensures
            r == type_of(self@),
    {
        match self {
            SettingData::Int(_) => XSettingsType::Int,
            SettingData::String(_) => XSettingsType::String,
            SettingData::Color(_) => XSettingsType::Color,
            SettingData::Undefined => XSettingsType::Undefined,
        }
    }

    /// A deep copy of this value.
    pub fn copy(&self) -> (r: SettingData)
        ensures
            r@ == self@,
    {
        match self {
            SettingData::Int(i) => SettingData::Int(*i),
            SettingData::String(s) => SettingData::String(copy_bytes(s.as_slice())),
            SettingData::Color(c) => SettingData::Color(*c),
            SettingData::Undefined => SettingData::Undefined,
        }
    }

    /// Whether two values have the same type and the same contents.
    pub fn same_value(&self, other: &SettingData) -> (r: bool)
        ensures
            r == (self@ == other@),
    {
        match (self, other) {
            (SettingData::Int(a), SettingData::Int(b)) => *a == *b,
            (SettingData::String(a), SettingData::String(b)) => bytes_equal(a.as_slice(), b.as_slice()),
            (SettingData::Color(a), SettingData::Color(b)) => *a == *b,
            (SettingData::Undefined, SettingData::Undefined) => true,
            _ => false,
        }
    }
}

impl XSettingsSetting {
    /// The type tag of this setting.
    pub fn setting_type(&self) -> (r: XSettingsType)
        ensures
            r == type_of(self@.value),
    {
        self.data.setting_type()
    }

    /// A deep copy of this setting, serial included.
    pub fn copy(&self) -> (r: XSettingsSetting)
        ensures
            r@ == self@,
    {
        XSettingsSetting {
            name: copy_bytes(self.name.as_slice()),
            data: self.data.copy(),
            last_change_serial: self.last_change_serial,
        }
    }

    /// Equality of name and value; the serial is not compared.
    pub fn same_as(&self, other: &XSettingsSetting) -> (r: bool)
        ensures
            r == same_setting(self@, other@),
    {
        bytes_equal(self.name.as_slice(), other.name.as_slice()) && self.data.same_value(&other.data)
    }
}

/// An owned setting: it outlives the snapshot it was copied from.
/// Two owned settings are equal when name and value agree.
#[derive(Debug)]
pub struct Setting {
    setting: XSettingsSetting,
}

impl View for Setting {
    type V = SettingModel;

    closed spec fn view(&self) -> SettingModel {
        self.setting@
    }
}

impl Setting {
    /// Takes ownership of a decoded setting.
    pub fn from_raw(setting: XSettingsSetting) -> (r: Setting)
        ensures
            r@ == setting@,
    {
        Setting { setting }
    }

    /// The setting's value.
    pub fn data(&self) -> (r: &SettingData)
        ensures
            r@ == self@.value,
    {
        &self.setting.data
    }

    /// The setting's name.
    pub fn name(&self) -> (r: &[u8])
        ensures
            r@ == self@.name,
    {
        self.setting.name.as_slice()
    }

    /// The serial of the setting's last change.
    pub fn last_change_serial(&self) -> (r: u32)
        ensures
            r == self@.serial,
    {
        self.setting.last_change_serial
    }

    /// A borrowed view of this setting.
    pub fn as_ref(&self) -> (r: SettingRef<'_>)
        ensures
            r@ == self@,
    {
        SettingRef { setting: &self.setting }
    }
}

impl Clone for Setting {
    /// A deep copy: same name, value and serial, with storage of its own.
    fn clone(&self) -> (r: Setting)
        ensures
            r@ == self@,
    {
        Setting { setting: self.setting.copy() }
    }
}

impl PartialEq for Setting {
    fn eq(&self, other: &Setting) -> (r: bool) {
        self.setting.same_as(&other.setting)
    }
}

impl vstd::std_specs::cmp::PartialEqSpecImpl for Setting {
    open spec fn obeys_eq_spec() -> bool {
        true
    }

    open spec fn eq_spec(&self, other: &Setting) -> bool {
        same_setting(self@, other@)
    }
}

impl<'a> PartialEq<SettingRef<'a>> for Setting {
    fn eq(&self, other: &SettingRef<'a>) -> (r: bool) {
        self.setting.same_as(other.setting)
    }
}

impl<'a> vstd::std_specs::cmp::PartialEqSpecImpl<SettingRef<'a>> for Setting {
    open spec fn obeys_eq_spec() -> bool {
        true
    }

    open spec fn eq_spec(&self, other: &SettingRef<'a>) -> bool {
        same_setting(self@, other@)
    }
}

/// A setting borrowed from a snapshot; valid only while the snapshot is.
#[derive(Copy, Clone, Debug)]
pub struct SettingRef<'a> {
    setting: &'a XSettingsSetting,
}

impl<'a> View for SettingRef<'a> {
    type V = SettingModel;

    closed spec fn view(&self) -> SettingModel {
        self.setting@
    }
}

impl<'a> SettingRef<'a> {
    /// Borrows a decoded setting.
    pub fn from_raw(setting: &'a XSettingsSetting) -> (r: SettingRef<'a>)
        ensures
            r@ == setting@,
    {
        SettingRef { setting }
    }

    /// The setting's value, borrowed for as long as the setting is.
    pub fn data(&self) -> (r: &'a SettingData)
        ensures
            r@ == self@.value,
    {
        &self.setting.data
    }

    /// The setting's name.
    pub fn name(&self) -> (r: &'a [u8])
        ensures
            r@ == self@.name,
    {
        self.setting.name.as_slice()
    }

    /// An owned deep copy of this setting.
    pub fn to_owned(&self) -> (r: Setting)
        ensures
            r@ == self@,
    {
        Setting { setting: self.setting.copy() }
    }
}

/// Owned settings compare by name and value: two built from the same name
/// and value are equal whatever their serials, and an owned setting equals a
/// borrowed one that holds the same name and value.
pub proof fn lemma_setting_equality(a: Setting, b: Setting, c: SettingRef<'_>)
    requires
        a@.name == b@.name,
        a@.value == b@.value,
        a@.name == c@.name,
        a@.value == c@.value,
    ensures
        a.eq_spec(&b),
        a.eq_spec(&c),
{
}

} // verus!
