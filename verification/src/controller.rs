//! The rules of the configuration of a virtual machine before it boots: what
//! a machine configuration may say, and what the kernel is told about the
//! root device.

use vstd::prelude::*;
use vstd::string::*;

verus! {

/// A set of processor features that the guest is to see.
#[derive(Debug, Clone, Copy, PartialEq, Eq, Structural)]
pub enum CpuFeaturesTemplate {
    /// The features of a C3 instance.
    C3,
    /// The features of a T2 instance.
    T2,
}

/// The configuration of the machine. A request to change it gives only the
/// members that are to change.
#[derive(Debug, Clone, Copy, PartialEq, Eq, Structural)]
pub struct VmConfig {
    /// The number of virtual processors.
    pub vcpu_count: Option<u8>,
    /// The size of the memory in MiB.
    pub mem_size_mib: Option<usize>,
    /// Whether hyperthreading is enabled.
    pub ht_enabled: Option<bool>,
    /// The processor features that the guest is to see.
    pub cpu_template: Option<CpuFeaturesTemplate>,
}

/// Why a machine configuration was turned down.
#[derive(Debug, Clone, Copy, PartialEq, Eq, Structural)]
pub enum VmConfigError {
    /// The number of virtual processors is 0, or odd and above 1 with
    /// hyperthreading enabled.
    InvalidVcpuCount,
    /// The size of the memory is 0.
    InvalidMemorySize,
    /// The machine has booted.
    UpdateNotAllowedPostBoot,
}

/// The configuration of the virtual processors.
#[derive(Debug, Clone, Copy, PartialEq, Eq, Structural)]
pub struct VcpuConfig {
    /// The number of virtual processors.
    pub vcpu_count: u8,
    /// Whether hyperthreading is enabled.
    pub ht_enabled: bool,
    /// The processor features that the guest is to see.
    pub cpu_template: Option<CpuFeaturesTemplate>,
}

/// The configuration of a virtual machine that has not booted yet.
#[derive(Debug, Clone, Copy, PartialEq, Eq, Structural)]
pub struct VmmController {
    /// Whether the machine was started.
    pub instance_initialized: bool,
    /// The configuration of the machine.
    pub vm_config: VmConfig,
}

/// Whether a machine with `vcpu_count` virtual processors may have
/// hyperthreading as `ht_enabled` says: with hyperthreading the number is 1
/// or even.
pub open spec fn spec_vcpu_count_allowed(ht_enabled: bool, vcpu_count: u8) -> bool {
    !(ht_enabled && vcpu_count > 1 && vcpu_count % 2 == 1)
}

impl VmmController {
    /// Whether changes of the configuration are turned down because the
    /// machine has booted. They never are.
    pub fn is_instance_initialized(&self) -> (r: bool)
        ensures
            !r,
    {
        false
    }

    /// What `set_vm_configuration` makes of the configuration, or why it
    /// turns the request down.
    pub open spec fn spec_set_vm_configuration(self, machine_config: VmConfig) -> Result<
        VmConfig,
        VmConfigError,
    > {
        let ht_enabled = match machine_config.ht_enabled {
            Some(ht_enabled) => ht_enabled,
            None => self.vm_config.ht_enabled.unwrap(),
        };
        let vcpu_count = match machine_config.vcpu_count {
            Some(vcpu_count) => vcpu_count,
            None => self.vm_config.vcpu_count.unwrap(),
        };
        if machine_config.vcpu_count == Some(0u8) {
            Err(VmConfigError::InvalidVcpuCount)
        } else if machine_config.mem_size_mib == Some(0usize) {
            Err(VmConfigError::InvalidMemorySize)
        } else if !spec_vcpu_count_allowed(ht_enabled, vcpu_count) {
            Err(VmConfigError::InvalidVcpuCount)
        } else {
            Ok(
                VmConfig {
                    vcpu_count: Some(vcpu_count),
                    ht_enabled: Some(ht_enabled),
                    mem_size_mib: if machine_config.mem_size_mib is Some {
                        machine_config.mem_size_mib
                    } else {
                        self.vm_config.mem_size_mib
                    },
                    cpu_template: if machine_config.cpu_template is Some {
                        machine_config.cpu_template
                    } else {
                        self.vm_config.cpu_template
                    },
                },
            )
        }
    }

    /// Sets the machine configuration: every member that the request gives
    /// takes the place of the one that the machine has.
    ///
    /// A request for no virtual processors or for no memory is turned down,
    /// and so is one that would leave the machine with hyperthreading and an
    /// odd number of virtual processors above 1. A request that is turned
    /// down changes nothing. The machine has to have a number of virtual
    /// processors and a setting for hyperthreading already.
    pub fn set_vm_configuration(&mut self, machine_config: VmConfig) -> (r: Result<
        (),
        VmConfigError,
    >)
        requires
            old(self).vm_config.vcpu_count is Some,
            old(self).vm_config.ht_enabled is Some,
        ensures
            final(self).instance_initialized == old(self).instance_initialized,
            match old(self).spec_set_vm_configuration(machine_config) {
                Ok(vm_config) => r is Ok && final(self).vm_config == vm_config,
                Err(e) => r == Err::<(), VmConfigError>(e) && final(self).vm_config == old(
                    self,
                ).vm_config,
            },
            final(self).vm_config.vcpu_count is Some,
            final(self).vm_config.ht_enabled is Some,
    {
        if self.is_instance_initialized() {
            return Err(VmConfigError::UpdateNotAllowedPostBoot);
        }
        if machine_config.vcpu_count == Some(0) {
            return Err(VmConfigError::InvalidVcpuCount);
        }
        if machine_config.mem_size_mib == Some(0) {
            return Err(VmConfigError::InvalidMemorySize);
        }
        let ht_enabled: bool = match machine_config.ht_enabled {
            Some(ht_enabled) => ht_enabled,
            None => self.vm_config.ht_enabled.unwrap(),
        };
        let vcpu_count_value: u8 = match machine_config.vcpu_count {
            Some(vcpu_count) => vcpu_count,
            None => self.vm_config.vcpu_count.unwrap(),
        };
        // If hyperthreading is enabled or is to be enabled in this call
        // only allow vcpu count to be 1 or even.
        if ht_enabled && vcpu_count_value > 1 && vcpu_count_value % 2 == 1 {
            return Err(VmConfigError::InvalidVcpuCount);
        }
        // Update all the fields that have a new value.
        self.vm_config.vcpu_count = Some(vcpu_count_value);
        self.vm_config.ht_enabled = Some(ht_enabled);
        if machine_config.mem_size_mib.is_some() {
            self.vm_config.mem_size_mib = machine_config.mem_size_mib;
        }
        if machine_config.cpu_template.is_some() {
            self.vm_config.cpu_template = machine_config.cpu_template;
        }
        Ok(())
    }

    /// Marks the machine as started.
    pub fn start_microvm(&mut self)
        ensures
            final(self).instance_initialized,
            final(self).vm_config == old(self).vm_config,
    {
        self.instance_initialized = true;
    }
}

/// The configuration of the virtual processors of a machine. The machine has
/// to have a number of virtual processors and a setting for hyperthreading.
pub fn vcpu_config(vm_config: &VmConfig) -> (r: VcpuConfig)
    requires
        vm_config.vcpu_count is Some,
        vm_config.ht_enabled is Some,
    ensures
        r == (VcpuConfig {
            vcpu_count: vm_config.vcpu_count.unwrap(),
            ht_enabled: vm_config.ht_enabled.unwrap(),
            cpu_template: vm_config.cpu_template,
        }),
{
    VcpuConfig {
        vcpu_count: vm_config.vcpu_count.unwrap(),
        ht_enabled: vm_config.ht_enabled.unwrap(),
        cpu_template: vm_config.cpu_template,
    }
}

/// How the root device is mounted.
pub open spec fn spec_root_flags(read_only: bool) -> Seq<char> {
    if read_only {
        "ro"@
    } else {
        "rw"@
    }
}

/// How the root device is mounted: `ro` where it is read-only, else `rw`.
pub fn root_flags(read_only: bool) -> (r: &'static str)
    ensures
        r@ == spec_root_flags(read_only),
{
    if read_only {
        "ro"
    } else {
        "rw"
    }
}

/// What the kernel is told where the root device is the first drive: that it
/// is `/dev/vda`, and how it is mounted. This applies where there is a root
/// device and none is named by the identifier of a partition.
pub fn default_root_args(
    has_root_block_device: bool,
    has_partuuid_root: bool,
    has_read_only_root: bool,
) -> (r: Option<(&'static str, &'static str)>)
    ensures
        r is Some <==> has_root_block_device && !has_partuuid_root,
        r is Some ==> r.unwrap().0@ == "root=/dev/vda"@ && r.unwrap().1@ == spec_root_flags(
            has_read_only_root,
        ),
{
    if has_root_block_device && !has_partuuid_root {
        Some(("root=/dev/vda", root_flags(has_read_only_root)))
    } else {
        None
    }
}

/// What the kernel is told about a drive that is the root device and is
/// named by the identifier of a partition: that identifier, and how the
/// device is mounted. Nothing is told about any other drive.
pub fn partuuid_root_args(is_root_device: bool, partuuid: Option<&str>, is_read_only: bool) -> (r:
    Option<(String, &'static str)>)
    ensures
        r is Some <==> is_root_device && partuuid is Some,
        r is Some ==> r.unwrap().0@ == "root=PARTUUID="@ + partuuid.unwrap()@ && r.unwrap().1@
            == spec_root_flags(is_read_only),
{
    if !is_root_device {
        return None;
    }
    match partuuid {
        Some(partuuid) => {
            let mut arg = String::from_str("root=PARTUUID=");
            arg.append(partuuid);
            Some((arg, root_flags(is_read_only)))
        },
        None => None,
    }
}

} // verus!
