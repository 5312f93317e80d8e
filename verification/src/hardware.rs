//! The controller hardware that provides the Bluetooth features.
use vstd::prelude::*;
use crate::text;

verus! {

/// A company identifier assigned by the Bluetooth SIG.
#[derive(Clone, Copy, Debug, PartialEq, Eq, Structural, Hash, PartialOrd, Ord)]
pub struct CompanyId(pub u16);

impl CompanyId {
    /// Ericsson Technology Licensing.
    pub fn ericsson() -> (r: CompanyId)
        ensures
            r == CompanyId(0x0000),
    {
        CompanyId(0x0000)
    }

    /// Intel.
    pub fn intel() -> (r: CompanyId)
        ensures
            r == CompanyId(0x0002),
    {
        CompanyId(0x0002)
    }

    /// Cambridge Silicon Radio.
    pub fn csr() -> (r: CompanyId)
        ensures
            r == CompanyId(0x000A),
    {
        CompanyId(0x000A)
    }

    /// Broadcom.
    pub fn broadcom() -> (r: CompanyId)
        ensures
            r == CompanyId(0x000F),
    {
        CompanyId(0x000F)
    }

    /// Qualcomm.
    pub fn qualcomm() -> (r: CompanyId)
        ensures
            r == CompanyId(0x001D),
    {
        CompanyId(0x001D)
    }

    /// Apple.
    pub fn apple() -> (r: CompanyId)
        ensures
            r == CompanyId(0x004C),
    {
        CompanyId(0x004C)
    }

    /// Nordic Semiconductor.
    pub fn nordic() -> (r: CompanyId)
        ensures
            r == CompanyId(0x0059),
    {
        CompanyId(0x0059)
    }

    /// Realtek Semiconductor.
    pub fn realtek() -> (r: CompanyId)
        ensures
            r == CompanyId(0x005D),
    {
        CompanyId(0x005D)
    }

    /// Cypress Semiconductor.
    pub fn cypress() -> (r: CompanyId)
        ensures
            r == CompanyId(0x0131),
    {
        CompanyId(0x0131)
    }

    /// The vendor names that are known.
    pub open spec fn known_name(self) -> Option<Seq<char>> {
        if self.0 == 0x0000 {
            Some("Ericsson Technology Licensing"@)
        } else if self.0 == 0x0002 {
            Some("Intel Corp."@)
        } else if self.0 == 0x000A {
            Some("Cambridge Silicon Radio"@)
        } else if self.0 == 0x000F {
            Some("Broadcom Corporation"@)
        } else if self.0 == 0x001D {
            Some("Qualcomm"@)
        } else if self.0 == 0x004C {
            Some("Apple, Inc."@)
        } else if self.0 == 0x0059 {
            Some("Nordic Semiconductor ASA"@)
        } else if self.0 == 0x005D {
            Some("Realtek Semiconductor"@)
        } else if self.0 == 0x0131 {
            Some("Cypress Semiconductor"@)
        } else {
            None
        }
    }

    /// The vendor's name, or its number where no name is known.
    pub open spec fn words(self) -> Seq<char> {
        match self.known_name() {
            Some(n) => n,
            None => "0x"@ + text::hex_upper(self.0 as nat, 4),
        }
    }

    /// The vendor's name, if it is known.
    pub fn name(self) -> (r: Option<&'static str>)
        ensures
            match r {
                Some(n) => self.known_name() == Some(n@),
                None => self.known_name() is None,
            },
    {
        match self.0 {
            0x0000 => Some("Ericsson Technology Licensing"),
            0x0002 => Some("Intel Corp."),
            0x000A => Some("Cambridge Silicon Radio"),
            0x000F => Some("Broadcom Corporation"),
            0x001D => Some("Qualcomm"),
            0x004C => Some("Apple, Inc."),
            0x0059 => Some("Nordic Semiconductor ASA"),
            0x005D => Some("Realtek Semiconductor"),
            0x0131 => Some("Cypress Semiconductor"),
            _ => None,
        }
    }

    /// The vendor's name, or its number where no name is known.
    pub fn to_string(&self) -> (r: String)
        ensures
            r@ == self.words(),
    {
        match self.name() {
            Some(n) => n.to_owned(),
            None => {
                let mut t = "0x".to_owned();
                t.append(text::hex_upper_text(self.0 as u32, 4).as_str());
                t
            },
        }
    }
}

/// A broad family of controller silicon.
#[derive(Clone, Copy, Debug, PartialEq, Eq, Structural, Hash, PartialOrd, Ord)]
#[non_exhaustive]
pub enum ChipsetFamily {
    /// Apple combo silicon.
    AppleCombo,
    /// Broadcom and Cypress controllers.
    Broadcom,
    /// Intel combo controllers.
    Intel,
    /// Qualcomm and Atheros controllers.
    Qualcomm,
    /// Realtek controllers.
    Realtek,
    /// Nordic controllers.
    Nordic,
    /// Cambridge Silicon Radio dongles.
    Csr,
    /// An emulated controller.
    Virtual,
    /// Unclassified silicon.
    Unknown,
}

impl Default for ChipsetFamily {
    fn default() -> (r: ChipsetFamily)
        ensures
            r == ChipsetFamily::Unknown,
    {
        ChipsetFamily::Unknown
    }
}

impl ChipsetFamily {
    /// The family that a vendor builds.
    pub open spec fn built_by(company: CompanyId) -> ChipsetFamily {
        if company.0 == 0x004C {
            ChipsetFamily::AppleCombo
        } else if company.0 == 0x0002 {
            ChipsetFamily::Intel
        } else if company.0 == 0x000F || company.0 == 0x0131 {
            ChipsetFamily::Broadcom
        } else if company.0 == 0x001D {
            ChipsetFamily::Qualcomm
        } else if company.0 == 0x005D {
            ChipsetFamily::Realtek
        } else if company.0 == 0x0059 {
            ChipsetFamily::Nordic
        } else if company.0 == 0x000A {
            ChipsetFamily::Csr
        } else {
            ChipsetFamily::Unknown
        }
    }

    /// The family that a vendor builds; unknown for other vendors.
    pub fn from_company(company: CompanyId) -> (r: ChipsetFamily)
        ensures
            r == ChipsetFamily::built_by(company),
    {
        match company.0 {
            0x004C => ChipsetFamily::AppleCombo,
            0x0002 => ChipsetFamily::Intel,
            0x000F => ChipsetFamily::Broadcom,
            0x0131 => ChipsetFamily::Broadcom,
            0x001D => ChipsetFamily::Qualcomm,
            0x005D => ChipsetFamily::Realtek,
            0x0059 => ChipsetFamily::Nordic,
            0x000A => ChipsetFamily::Csr,
            _ => ChipsetFamily::Unknown,
        }
    }

    /// The words for the family.
    pub open spec fn words(self) -> Seq<char> {
        match self {
            ChipsetFamily::AppleCombo => "Apple combo"@,
            ChipsetFamily::Broadcom => "Broadcom"@,
            ChipsetFamily::Intel => "Intel"@,
            ChipsetFamily::Qualcomm => "Qualcomm"@,
            ChipsetFamily::Realtek => "Realtek"@,
            ChipsetFamily::Nordic => "Nordic"@,
            ChipsetFamily::Csr => "CSR"@,
            ChipsetFamily::Virtual => "virtual"@,
            ChipsetFamily::Unknown => "unknown"@,
        }
    }

    /// The words for the family.
    pub fn to_string(&self) -> (r: String)
        ensures
            r@ == self.words(),
    {
        match self {
            ChipsetFamily::AppleCombo => "Apple combo".to_owned(),
            ChipsetFamily::Broadcom => "Broadcom".to_owned(),
            ChipsetFamily::Intel => "Intel".to_owned(),
            ChipsetFamily::Qualcomm => "Qualcomm".to_owned(),
            ChipsetFamily::Realtek => "Realtek".to_owned(),
            ChipsetFamily::Nordic => "Nordic".to_owned(),
            ChipsetFamily::Csr => "CSR".to_owned(),
            ChipsetFamily::Virtual => "virtual".to_owned(),
            ChipsetFamily::Unknown => "unknown".to_owned(),
        }
    }
}

/// A concrete identification of a local controller.
#[derive(Debug, PartialEq, Eq, Hash, PartialOrd, Ord)]
pub struct ControllerModel {
    /// The vendor.
    pub manufacturer: CompanyId,
    /// The silicon family.
    pub family: ChipsetFamily,
    /// The model, such as `AX210`.
    pub model: String,
}

/// What a [`ControllerModel`] holds.
pub struct ControllerView {
    pub manufacturer: CompanyId,
    pub family: ChipsetFamily,
    pub model: Seq<char>,
}

impl View for ControllerModel {
    type V = ControllerView;

    open spec fn view(&self) -> ControllerView {
        ControllerView {
            manufacturer: self.manufacturer,
            family: self.family,
            model: self.model@,
        }
    }
}

impl ControllerView {
    /// The one-line label: vendor, model and family.
    pub open spec fn words(self) -> Seq<char> {
        self.manufacturer.words() + " "@ + self.model + " ("@ + self.family.words() + ")"@
    }

    /// An emulated controller of the given model.
    pub open spec fn emulated(model: Seq<char>) -> ControllerView {
        ControllerView { manufacturer: CompanyId(0xFFFF), family: ChipsetFamily::Virtual, model }
    }
}

impl Clone for ControllerModel {
    fn clone(&self) -> (r: ControllerModel)
        ensures
            r@ == self@,
    {
        ControllerModel {
            manufacturer: self.manufacturer,
            family: self.family,
            model: self.model.clone(),
        }
    }
}

impl ControllerModel {
    /// A fully specified controller.
    pub fn new(manufacturer: CompanyId, family: ChipsetFamily, model: &str) -> (r: ControllerModel)
        ensures
            r@ == (ControllerView { manufacturer, family, model: model@ }),
    {
        ControllerModel { manufacturer, family, model: model.to_owned() }
    }

    /// An emulated controller.
    pub fn virtual_model(model: &str) -> (r: ControllerModel)
        ensures
            r@ == ControllerView::emulated(model@),
    {
        ControllerModel::new(CompanyId(0xFFFF), ChipsetFamily::Virtual, model)
    }

    /// The one-line label, such as `Intel Corp. AX210 (Intel)`.
    pub fn label(&self) -> (r: String)
        ensures
            r@ == self@.words(),
    {
        let mut t = self.manufacturer.to_string();
        t.append(" ");
        t.append(self.model.as_str());
        t.append(" (");
        t.append(self.family.to_string().as_str());
        t.append(")");
        t
    }

    /// The one-line label.
    pub fn to_string(&self) -> (r: String)
        ensures
            r@ == self@.words(),
    {
        self.label()
    }
}

} // verus!
