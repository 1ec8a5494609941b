//! Configuration of a Vulkan instance: its extensions and layers.

use vstd::prelude::*;

use crate::device::{extension, Extension};
use crate::device;
use crate::names::{copy_name, NameMap};
use crate::physical_device::MissingFeatureError;
use crate::version::Version;
use crate::version;
use crate::vk;
use vstd::string::*;

verus! {

/// Name of the extension that lists partial implementations.
pub const PORTABILITY_ENUMERATION: &'static str = "VK_KHR_portability_enumeration";

/// Properties of a layer.
#[derive(Debug)]
pub struct LayerProperties {
    /// The version of Vulkan that the layer was written for.
    pub spec_version: Version,
    pub implementation_version: Version,
    pub description: String,
}

impl Clone for LayerProperties {
    fn clone(&self) -> (r: Self)
        ensures
            r.spec_version == self.spec_version,
            r.implementation_version == self.implementation_version,
            r.description@ == self.description@,
    {
        LayerProperties {
            spec_version: self.spec_version,
            implementation_version: self.implementation_version,
            description: self.description.clone(),
        }
    }
}

/// What an instance is created with.
pub struct InstanceCreateInfo {
    pub flags: u32,
    pub application_name: String,
    pub application_version: Version,
    pub engine_name: String,
    pub engine_version: Version,
    pub api_version: Version,
}

impl Default for InstanceCreateInfo {
    fn default() -> (r: Self)
        ensures
            r.flags == 0,
            r.application_name@ == "Unnamed Application"@,
            r.application_version == Version(0),
            r.engine_name@ == "Unnamed Engine"@,
            r.engine_version == Version(0),
            r.api_version == Version(version::packed(0, 1, 3, 0)),
    {
        InstanceCreateInfo {
            flags: 0,
            application_name: "Unnamed Application".to_owned(),
            application_version: Version(0),
            engine_name: "Unnamed Engine".to_owned(),
            engine_version: Version(0),
            api_version: Version::new(0, 1, 3, 0),
        }
    }
}

/// Configuration of an instance that is to be created.
pub struct InstanceBuilder {
    pub available_extensions: NameMap<Version>,
    /// Whether each enabled extension has commands to be loaded.
    pub enabled_extensions: NameMap<bool>,
    /// Extensions of which every device of the instance loads commands.
    pub device_extensions: NameMap<bool>,
    pub available_layers: NameMap<LayerProperties>,
    pub enabled_layers: Vec<Vec<u8>>,
    pub info: InstanceCreateInfo,
}

/// `m` with the first `n` of the listed extensions.
pub open spec fn extended(
    m: Map<Seq<u8>, Version>,
    list: Seq<(Vec<u8>, Version)>,
    n: nat,
) -> Map<Seq<u8>, Version>
    decreases n,
{
    if n == 0 {
        m
    } else {
        extended(m, list, (n - 1) as nat).insert(list[n - 1].0@, list[n - 1].1)
    }
}

impl InstanceBuilder {
    pub open spec fn wf(&self) -> bool {
        &&& self.available_extensions.wf()
        &&& self.enabled_extensions.wf()
        &&& self.device_extensions.wf()
        &&& self.available_layers.wf()
    }

    /// The builder where the given extensions and layers are available. With
    /// `portability`, partial implementations are listed too, if that can be
    /// asked for.
    pub fn new(
        available_extensions: NameMap<Version>,
        available_layers: NameMap<LayerProperties>,
        portability: bool,
    ) -> (r: Self)
        requires
            available_extensions.wf(),
            available_layers.wf(),
        ensures
            r.wf(),
            r.available_extensions == available_extensions,
            r.available_layers == available_layers,
            r.enabled_layers@.len() == 0,
            r.info.application_name@ == "Unnamed Application"@,
            r.info.application_version == Version(0),
            r.info.engine_name@ == "Unnamed Engine"@,
            r.info.engine_version == Version(0),
            r.info.api_version == Version(version::packed(0, 1, 3, 0)),
            ({
                let listed = portability && available_extensions@.contains_key(
                    PORTABILITY_ENUMERATION.spec_bytes(),
                );
                &&& r.info.flags == (if listed {
                    vk::INSTANCE_CREATE_ENUMERATE_PORTABILITY_KHR
                } else {
                    0
                })
                &&& r.enabled_extensions@ == (if listed {
                    Map::<Seq<u8>, bool>::empty().insert(
                        PORTABILITY_ENUMERATION.spec_bytes(),
                        true,
                    )
                } else {
                    Map::<Seq<u8>, bool>::empty()
                })
                &&& r.device_extensions@ == r.enabled_extensions@
            }),
    {
        let mut builder = InstanceBuilder {
            available_extensions,
            enabled_extensions: NameMap::new(),
            device_extensions: NameMap::new(),
            available_layers,
            enabled_layers: Vec::new(),
            info: InstanceCreateInfo::default(),
        };
        if portability {
            match builder.enable_extension(&extension(PORTABILITY_ENUMERATION, None)) {
                Ok(()) => {
                    builder.info.flags = vk::INSTANCE_CREATE_ENUMERATE_PORTABILITY_KHR;
                },
                Err(_) => {},
            }
        }
        builder
    }

    /// Enables an extension. One that is part of Vulkan already needs nothing;
    /// the commands of any other are loaded for the instance and its devices.
    pub fn enable_extension(&mut self, e: &Extension) -> (r: Result<(), MissingFeatureError>)
        requires
            old(self).wf(),
        ensures
            final(self).wf(),
            final(self).available_extensions == old(self).available_extensions,
            final(self).available_layers == old(self).available_layers,
            final(self).enabled_layers == old(self).enabled_layers,
            final(self).info == old(self).info,
            r is Ok <==> device::is_core(*e, old(self).info.api_version) || old(self).available_extensions@.contains_key(e.name@),
            r matches Err(MissingFeatureError::Extension(name)) ==> name@ == e.name@,
            r matches Err(err) ==> err is Extension,
            r is Ok && !device::is_core(*e, old(self).info.api_version) ==> {
                &&& final(self).enabled_extensions@ == old(self).enabled_extensions@.insert(
                    e.name@,
                    true,
                )
                &&& final(self).device_extensions@ == old(self).device_extensions@.insert(
                    e.name@,
                    true,
                )
            },
            r is Err || device::is_core(*e, old(self).info.api_version) ==> {
                &&& final(self).enabled_extensions@ == old(self).enabled_extensions@
                &&& final(self).device_extensions@ == old(self).device_extensions@
            },
    {
        match e.promoted_to {
            Some(v) => {
                if self.info.api_version.at_least(v) {
                    return Ok(());
                }
            },
            None => {},
        }
        if self.available_extensions.contains(e.name.as_slice()) {
            self.enabled_extensions.insert(copy_name(e.name.as_slice()), true);
            self.device_extensions.insert(copy_name(e.name.as_slice()), true);
            Ok(())
        } else {
            Err(MissingFeatureError::Extension(copy_name(e.name.as_slice())))
        }
    }

    /// Enables an extension of which no commands are needed.
    pub fn enable_extension_named(&mut self, name: &[u8]) -> (r: Result<(), MissingFeatureError>)
        requires
            old(self).wf(),
        ensures
            final(self).wf(),
            final(self).available_extensions == old(self).available_extensions,
            final(self).available_layers == old(self).available_layers,
            final(self).enabled_layers == old(self).enabled_layers,
            final(self).device_extensions == old(self).device_extensions,
            final(self).info == old(self).info,
            r is Ok <==> old(self).available_extensions@.contains_key(name@),
            r matches Err(MissingFeatureError::Extension(n)) ==> n@ == name@,
            r matches Err(err) ==> err is Extension,
            final(self).enabled_extensions@ == (if r is Ok && !old(self).enabled_extensions@.contains_key(name@) {
                old(self).enabled_extensions@.insert(name@, false)
            } else {
                old(self).enabled_extensions@
            }),
    {
        if self.available_extensions.contains(name) {
            self.enabled_extensions.insert_if_absent(copy_name(name), false);
            Ok(())
        } else {
            Err(MissingFeatureError::Extension(copy_name(name)))
        }
    }

    /// Enables a layer; `None` where it is not available. The extensions that
    /// it brings, in `additional`, can then be enabled too.
    pub fn enable_layer(&mut self, layer: &[u8], additional: &Vec<(Vec<u8>, Version)>) -> (r: Option<
        LayerProperties,
    >)
        requires
            old(self).wf(),
        ensures
            final(self).wf(),
            final(self).available_layers == old(self).available_layers,
            final(self).enabled_extensions == old(self).enabled_extensions,
            final(self).device_extensions == old(self).device_extensions,
            final(self).info == old(self).info,
            r is Some <==> old(self).available_layers@.contains_key(layer@),
            r matches Some(p) ==> {
                let l = old(self).available_layers@[layer@];
                &&& p.spec_version == l.spec_version
                &&& p.implementation_version == l.implementation_version
                &&& p.description@ == l.description@
                &&& final(self).enabled_layers@.len() == old(self).enabled_layers@.len() + 1
                &&& final(self).enabled_layers@.drop_last() == old(self).enabled_layers@
                &&& final(self).enabled_layers@.last()@ == layer@
                &&& final(self).available_extensions@ == extended(
                    old(self).available_extensions@,
                    additional@,
                    additional@.len(),
                )
            },
            r is None ==> *final(self) == *old(self),
    {
        let properties = match self.available_layers.get(layer) {
            Some(p) => p.clone(),
            None => {
                return None;
            },
        };
        self.enabled_layers.push(copy_name(layer));
        assert(self.enabled_layers@.drop_last() =~= old(self).enabled_layers@);
        let mut i: usize = 0;
        while i < additional.len()
            invariant
                i <= additional@.len(),
                self.wf(),
                self.available_layers == old(self).available_layers,
                self.enabled_extensions == old(self).enabled_extensions,
                self.device_extensions == old(self).device_extensions,
                self.info == old(self).info,
                self.enabled_layers@.len() == old(self).enabled_layers@.len() + 1,
                self.enabled_layers@.drop_last() == old(self).enabled_layers@,
                self.enabled_layers@.last()@ == layer@,
                self.available_extensions@ == extended(
                    old(self).available_extensions@,
                    additional@,
                    i as nat,
                ),
            decreases additional@.len() - i,
        {
            let name = copy_name(additional[i].0.as_slice());
            self.available_extensions.insert(name, additional[i].1);
            i += 1;
        }
        Some(properties)
    }
}

/// What a layer brings can be enabled once the layer is.
pub proof fn law_layer_extensions_become_available(
    before: Map<Seq<u8>, Version>,
    list: Seq<(Vec<u8>, Version)>,
    n: nat,
    name: Seq<u8>,
)
    requires
        n <= list.len(),
    ensures
        extended(before, list, n).contains_key(name) <==> before.contains_key(name) || exists|i: int|
            0 <= i < n && (#[trigger] list[i]).0@ == name,
    decreases n,
{
    if n > 0 {
        law_layer_extensions_become_available(before, list, (n - 1) as nat, name);
        assert(list[n - 1].0@ == list[n - 1].0@);
    }
}

/// An extension has the version that was listed last for it; one that is not
/// listed keeps its version.
pub proof fn law_the_last_listed_version_counts(
    before: Map<Seq<u8>, Version>,
    list: Seq<(Vec<u8>, Version)>,
    n: nat,
    i: int,
    name: Seq<u8>,
)
    requires
        n <= list.len(),
    ensures
        0 <= i < n && (forall|j: int| i < j < n ==> (#[trigger] list[j]).0@ != list[i].0@)
            ==> extended(before, list, n)[list[i].0@] == list[i].1,
        before.contains_key(name) && (forall|j: int| 0 <= j < n ==> (#[trigger] list[j]).0@ != name)
            ==> extended(before, list, n)[name] == before[name],
    decreases n,
{
    if n > 0 {
        law_the_last_listed_version_counts(before, list, (n - 1) as nat, i, name);
        assert(list[n - 1].0@ == list[n - 1].0@);
    }
}

/// What the instance of a device with default settings is created with.
pub fn system_default_info() -> (r: InstanceCreateInfo)
    ensures
        r.flags == 0,
        r.application_name@ == "Unnamed Application"@,
        r.application_version == Version(0),
        r.engine_name@ == "Unnamed Engine"@,
        r.engine_version == Version(0),
        r.api_version == Version(version::packed(0, 1, 2, 0)),
{
    let mut info: InstanceCreateInfo = InstanceCreateInfo::default();
    info.api_version = Version::new(0, 1, 2, 0);
    info
}

} // verus!
