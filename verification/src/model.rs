//! Data model: snapshots of host state and outcomes of privileged mutations.
//!
//! Every entity here is a transient value snapshot, rebuilt in full on each
//! probe cycle; nothing is cached across calls. The ghost `*Model` structs
//! are the mathematical views the contracts speak of.

use vstd::prelude::*;

verus! {

// --- General host snapshot structures ---

#[derive(Clone, Debug)]
pub struct OsInfo {
    pub name: String,
    pub kernel_version: String,
    pub os_version: String,
    pub long_os_version: String,
    pub host_name: String,
}

#[derive(Clone, Debug)]
pub struct MemoryInfo {
    pub total_kb: u64,
    pub available_kb: u64,
    pub used_kb: u64,
    pub total_swap_kb: u64,
    pub used_swap_kb: u64,
}

#[derive(Clone, Debug)]
pub struct NetworkData {
    pub interface_name: String,
    pub mac_address: String,
    pub received_bytes: u64,
    pub total_received_bytes: u64,
    pub transmitted_bytes: u64,
    pub total_transmitted_bytes: u64,
}

#[derive(Clone, Debug)]
pub struct UserInfo {
    pub name: String,
    pub groups: Vec<String>,
}

// --- Kernel state ---

/// A kernel found under the module directory root.
#[derive(Clone, Debug)]
pub struct InstalledKernel {
    pub name: String,
    pub version: String,
    pub flavor: String,
}

pub ghost struct InstalledModel {
    pub name: Seq<char>,
    pub version: Seq<char>,
    pub flavor: Seq<char>,
}

impl View for InstalledKernel {
    type V = InstalledModel;

    open spec fn view(&self) -> InstalledModel {
        InstalledModel { name: self.name@, version: self.version@, flavor: self.flavor@ }
    }
}

/// A kernel package offered by the repositories, produced only by the
/// repository catalog parser.
#[derive(Clone, Debug)]
pub struct InstallableKernel {
    pub package_name: String,
    pub version: String,
    pub description: String,
    pub flavor: String,
}

pub ghost struct InstallableModel {
    pub package_name: Seq<char>,
    pub version: Seq<char>,
    pub description: Seq<char>,
    pub flavor: Seq<char>,
}

impl View for InstallableKernel {
    type V = InstallableModel;

    open spec fn view(&self) -> InstallableModel {
        InstallableModel {
            package_name: self.package_name@,
            version: self.version@,
            description: self.description@,
            flavor: self.flavor@,
        }
    }
}

/// Full kernel snapshot: the running kernel plus what is installed and what
/// the repositories offer.
#[derive(Clone, Debug)]
pub struct KernelInfo {
    pub running_kernel: String,
    pub installed_kernels: Vec<InstalledKernel>,
    pub installable_kernels: Vec<InstallableKernel>,
}

// --- Bluetooth and printer presentation records ---

#[derive(Clone, Debug)]
pub struct BluetoothDevice {
    pub name: Option<String>,
    pub address: String,
    pub rssi: Option<i16>,
    pub is_connected: bool,
    pub is_paired: bool,
    pub vendor_data: Option<String>,
}

#[derive(Clone, Debug)]
pub enum DeviceUpdate {
    Discovered { device: BluetoothDevice },
    Removed { address: String },
}

#[derive(Clone, Debug, PartialEq, Eq, Structural)]
pub enum PrinterState {
    Idle,
    Printing,
    Stopped,
}

#[derive(Clone, Debug)]
pub struct Printer {
    pub name: String,
    pub device_uri: String,
    pub description: Option<String>,
    pub location: Option<String>,
    pub is_default: bool,
    pub state: PrinterState,
    pub accepting_jobs: bool,
}

#[derive(Clone, Debug)]
pub enum PrinterEvent {
    List(Vec<Printer>),
    Added(String),
    Removed(String),
    Error(String),
}

// --- Locale state ---

/// The seven locale categories of the host locale configuration file,
/// empty when a category is absent.
#[derive(Clone, Debug)]
pub struct LocaleInfo {
    pub lang: String,
    pub lc_collate: String,
    pub lc_ctype: String,
    pub lc_messages: String,
    pub lc_monetary: String,
    pub lc_numeric: String,
    pub lc_time: String,
}

pub ghost struct LocaleModel {
    pub lang: Seq<char>,
    pub lc_collate: Seq<char>,
    pub lc_ctype: Seq<char>,
    pub lc_messages: Seq<char>,
    pub lc_monetary: Seq<char>,
    pub lc_numeric: Seq<char>,
    pub lc_time: Seq<char>,
}

impl View for LocaleInfo {
    type V = LocaleModel;

    open spec fn view(&self) -> LocaleModel {
        LocaleModel {
            lang: self.lang@,
            lc_collate: self.lc_collate@,
            lc_ctype: self.lc_ctype@,
            lc_messages: self.lc_messages@,
            lc_monetary: self.lc_monetary@,
            lc_numeric: self.lc_numeric@,
            lc_time: self.lc_time@,
        }
    }
}

/// The empty locale model: every category absent.
pub open spec fn empty_locale_model() -> LocaleModel {
    LocaleModel {
        lang: Seq::empty(),
        lc_collate: Seq::empty(),
        lc_ctype: Seq::empty(),
        lc_messages: Seq::empty(),
        lc_monetary: Seq::empty(),
        lc_numeric: Seq::empty(),
        lc_time: Seq::empty(),
    }
}

impl Default for LocaleInfo {
    fn default() -> (r: LocaleInfo)
        ensures
            r@ == empty_locale_model(),
    {
        LocaleInfo {
            lang: String::new(),
            lc_collate: String::new(),
            lc_ctype: String::new(),
            lc_messages: String::new(),
            lc_monetary: String::new(),
            lc_numeric: String::new(),
            lc_time: String::new(),
        }
    }
}

/// Aggregate locale status: always rebuilt in full from the three source
/// probes plus the reboot sentinel, never patched incrementally.
#[derive(Clone, Debug)]
pub struct LocaleStatus {
    pub current: LocaleInfo,
    pub available_locales: Vec<String>,
    pub generated_locales: Vec<String>,
    pub reboot_required: bool,
}

pub ghost struct StatusModel {
    pub current: LocaleModel,
    pub available_locales: Seq<Seq<char>>,
    pub generated_locales: Seq<Seq<char>>,
    pub reboot_required: bool,
}

impl View for LocaleStatus {
    type V = StatusModel;

    open spec fn view(&self) -> StatusModel {
        StatusModel {
            current: self.current@,
            available_locales: self.available_locales@.map_values(|l: String| l@),
            generated_locales: self.generated_locales@.map_values(|l: String| l@),
            reboot_required: self.reboot_required,
        }
    }
}

// --- Command outcomes ---

/// Outcome of a command dispatched on behalf of an observer: a success flag
/// and a human-readable message. Never partial: a failed mutation always
/// carries a classified reason.
#[derive(Clone, Debug)]
pub struct CommandResult {
    pub success: bool,
    pub message: String,
}

impl CommandResult {
    pub fn ok(message: String) -> (r: CommandResult)
        ensures
            r.success,
            r.message@ == message@,
    {
        CommandResult { success: true, message }
    }

    pub fn error(message: String) -> (r: CommandResult)
        ensures
            !r.success,
            r.message@ == message@,
    {
        CommandResult { success: false, message }
    }
}

} // verus!
