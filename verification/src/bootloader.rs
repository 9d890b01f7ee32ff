//! The bootloaders that a device may have.
use vstd::prelude::*;
use vstd::string::StringExecFns;

verus! {

/// The bootloader of a device.
#[derive(Debug, Clone, PartialEq, Eq)]
pub enum BootloaderType {
    /// MCUboot.
    MCUboot,
    /// Another bootloader, by the name that the device gives it.
    Other(String),
}

/// The model of [`BootloaderType`].
pub enum BootloaderTypeView {
    MCUboot,
    Other(Seq<char>),
}

impl View for BootloaderType {
    type V = BootloaderTypeView;

    open spec fn view(&self) -> BootloaderTypeView {
        match self {
            BootloaderType::MCUboot => BootloaderTypeView::MCUboot,
            BootloaderType::Other(name) => BootloaderTypeView::Other(name@),
        }
    }
}

/// The bootloader that a device names `name`.
pub open spec fn bootloader_named(name: Seq<char>) -> BootloaderTypeView {
    if name == "MCUboot"@ {
        BootloaderTypeView::MCUboot
    } else {
        BootloaderTypeView::Other(name)
    }
}

impl BootloaderType {
    /// The bootloader that a device names `name`.
    pub fn from_name(name: &str) -> (bootloader: BootloaderType)
        ensures
            bootloader@ == bootloader_named(name@),
    {
        let given = String::from_str(name);
        let known = String::from_str("MCUboot");
        if given == known {
            BootloaderType::MCUboot
        } else {
            BootloaderType::Other(given)
        }
    }

    /// The bootloader of the given name, where it is one that an update
    /// can be made for.
    pub fn parse(name: &str) -> (bootloader: Option<BootloaderType>)
        ensures
            name@ == "MCUboot"@ ==> bootloader == Some(BootloaderType::MCUboot),
            name@ != "MCUboot"@ ==> bootloader is None,
    {
        match BootloaderType::from_name(name) {
            BootloaderType::MCUboot => Some(BootloaderType::MCUboot),
            BootloaderType::Other(_) => None,
        }
    }
}

} // verus!
