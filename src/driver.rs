use vstd::prelude::*;

use crate::device::DeviceError;
use crate::lifecycle::LifecycleError;
use crate::names::{all_names_present, all_present, names_view};
use crate::shader::ShaderError;

verus! {

/// The settings a run is started with.
#[derive(Clone, Debug)]
pub struct AppConfig {
    pub width: u32,
    pub height: u32,
    pub title: String,
    /// The validation layers asked for when diagnostics are on.
    pub validation_layers: Vec<Vec<u8>>,
    /// Whether validation layers and the debug messenger are wanted.
    pub diagnostics: bool,
}

/// Why building the context stopped.
#[derive(Clone, Copy, Debug, PartialEq, Eq, Structural)]
pub enum InitError {
    /// Diagnostics are on and a validation layer is not available.
    LayerUnavailable,
    Device(DeviceError),
    Shader(ShaderError),
    Lifecycle(LifecycleError),
}

/// What an instance is created with.
#[derive(Clone, Debug)]
pub struct InstancePlan {
    pub application_name: String,
    pub engine_name: String,
    pub application_version: u32,
    pub engine_version: u32,
    pub api_version: u32,
    pub extensions: Vec<Vec<u8>>,
    pub layers: Vec<Vec<u8>>,
    /// Whether a debug messenger is attached to the instance.
    pub debug_messenger: bool,
}

/// What the window's event loop delivers.
#[derive(Clone, Copy, Debug, PartialEq, Eq, Structural)]
pub enum LoopEvent {
    CloseRequested,
    /// All pending events have been handled.
    EventsCleared,
    RedrawRequested,
    /// The loop has ended and delivers nothing more.
    LoopDestroyed,
    Other,
}

/// What the event loop does after an event.
#[derive(Clone, Copy, Debug, PartialEq, Eq, Structural)]
pub enum LoopAction {
    /// Sleep until the next event.
    Wait,
    /// Leave the loop.
    Exit,
    /// Tear the context down, then leave.
    Release,
}

/// A Vulkan version number packed the way `VK_MAKE_API_VERSION` packs it.
pub open spec fn packed_version(variant: u32, major: u32, minor: u32, patch: u32) -> u32 {
    (variant << 29u32) | (major << 22u32) | (minor << 12u32) | patch
}

/// Relies on erupt::vk::make_api_version, which packs the four parts into
/// one word by shifts and bitwise or.
#[verifier::external_body]
fn make_api_version(variant: u32, major: u32, minor: u32, patch: u32) -> (r: u32)
    ensures
        r == packed_version(variant, major, minor, patch),
{
    erupt::vk::make_api_version(variant, major, minor, patch)
}

pub open spec fn layers_of(config: AppConfig) -> Seq<Seq<u8>> {
    if config.diagnostics {
        names_view(config.validation_layers@)
    } else {
        Seq::empty()
    }
}

pub fn copy_name(name: &Vec<u8>) -> (r: Vec<u8>)
    ensures
        r@ == name@,
{
    let mut r: Vec<u8> = Vec::new();
    let mut j: usize = 0;
    while j < name.len()
        invariant
            0 <= j <= name@.len(),
            r@ == name@.take(j as int),
        decreases name@.len() - j,
    {
        r.push(name[j]);
        j += 1;
        assert(r@ =~= name@.take(j as int));
    }
    assert(r@ =~= name@);
    r
}

pub fn copy_names(names: &Vec<Vec<u8>>) -> (r: Vec<Vec<u8>>)
    ensures
        names_view(r@) == names_view(names@),
{
    let mut r: Vec<Vec<u8>> = Vec::new();
    let mut i: usize = 0;
    while i < names.len()
        invariant
            0 <= i <= names@.len(),
            r@.len() == i,
            forall|j: int| 0 <= j < i ==> (#[trigger] r@[j])@ == names@[j]@,
        decreases names@.len() - i,
    {
        r.push(copy_name(&names[i]));
        i += 1;
    }
    assert(names_view(r@) =~= names_view(names@));
    r
}

/// The application: its settings and the state of its event loop.
pub struct HelloTriangleApp {
    pub config: AppConfig,
    /// A close was requested; the loop is on its way out.
    pub closing: bool,
    /// The context has been handed back for teardown.
    pub released: bool,
}

impl HelloTriangleApp {
    pub fn new(config: AppConfig) -> (r: HelloTriangleApp)
        ensures
            r.config == config,
            !r.closing,
            !r.released,
    {
        HelloTriangleApp { config, closing: false, released: false }
    }

    /// The layers the instance and the logical device enable.
    pub fn enabled_layers(&self) -> (r: Vec<Vec<u8>>)
        ensures
            names_view(r@) == layers_of(self.config),
    {
        if self.config.diagnostics {
            copy_names(&self.config.validation_layers)
        } else {
            let r: Vec<Vec<u8>> = Vec::new();
            assert(names_view(r@) =~= Seq::<Seq<u8>>::empty());
            r
        }
    }

    /// Fails when diagnostics are on and a requested validation layer is
    /// not among those the loader offers.
    pub fn check_validation_layer_support(&self, available: &Vec<Vec<u8>>) -> (r: Result<
        (),
        InitError,
    >)
        ensures
            r is Ok <==> all_present(layers_of(self.config), names_view(available@)),
            r is Err ==> r == Err::<(), InitError>(InitError::LayerUnavailable),
    {
        if !self.config.diagnostics {
            return Ok(());
        }
        if all_names_present(&self.config.validation_layers, available) {
            Ok(())
        } else {
            Err(InitError::LayerUnavailable)
        }
    }

    /// The instance's settings: the application and engine names, the extensions the window system needs, the
    /// debug-utilities extension and the validation layers when diagnostics
    /// are on, and version 1.0 of the application, engine and API.
    pub fn init_vulkan(&self, required_extensions: &Vec<Vec<u8>>, debug_utils_extension: &Vec<u8>) -> (r:
        InstancePlan)
        ensures
            names_view(r.extensions@) == if self.config.diagnostics {
                names_view(required_extensions@).push(debug_utils_extension@)
            } else {
                names_view(required_extensions@)
            },
            names_view(r.layers@) == layers_of(self.config),
            r.debug_messenger == self.config.diagnostics,
            r.application_name@ == "Hello Triangle"@,
            r.engine_name@ == "No Engine"@,
            r.application_version == packed_version(0, 1, 0, 0),
            r.engine_version == packed_version(0, 1, 0, 0),
            r.api_version == packed_version(0, 1, 0, 0),
    {
        let mut extensions = copy_names(required_extensions);
        if self.config.diagnostics {
            let ghost before = extensions@;
            extensions.push(copy_name(debug_utils_extension));
            assert(names_view(extensions@) =~= names_view(before).push(debug_utils_extension@));
        }
        let version = make_api_version(0, 1, 0, 0);
        InstancePlan {
            application_name: "Hello Triangle".to_string(),
            engine_name: "No Engine".to_string(),
            application_version: version,
            engine_version: make_api_version(0, 1, 0, 0),
            api_version: make_api_version(0, 1, 0, 0),
            extensions,
            layers: self.enabled_layers(),
            debug_messenger: self.config.diagnostics,
        }
    }

    /// Handles one event of the window's loop. A close request ends the loop;
    /// the loop's end hands the context back for teardown, once.
    pub fn run(&mut self, event: LoopEvent) -> (action: LoopAction)
        ensures
            final(self).config == old(self).config,
            final(self).closing == (old(self).closing || event == LoopEvent::CloseRequested),
            final(self).released == (old(self).released || event == LoopEvent::LoopDestroyed),
            action == LoopAction::Release <==> (event == LoopEvent::LoopDestroyed
                && !old(self).released),
            action == LoopAction::Wait <==> (event != LoopEvent::LoopDestroyed
                && event != LoopEvent::CloseRequested && !old(self).closing),
    {
        match event {
            LoopEvent::CloseRequested => {
                self.closing = true;
                LoopAction::Exit
            },
            LoopEvent::LoopDestroyed => {
                if self.released {
                    LoopAction::Exit
                } else {
                    self.released = true;
                    LoopAction::Release
                }
            },
            _ => {
                if self.closing {
                    LoopAction::Exit
                } else {
                    LoopAction::Wait
                }
            },
        }
    }
}

} // verus!
