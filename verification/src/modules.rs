//! The interface of renderable modules: a module type names its configuration
//! and its renderer, and a container pairs one renderer with its configuration.

use vstd::prelude::*;

use crate::position::{DisplaySelection, HorizontalPositionAnchor, ModulePosition, VerticalPositionAnchor};
use crate::scene::SceneData;

verus! {

/// The configuration of a module.
pub trait ModuleConfig: Clone + Default {}

/// Draws a module with a given configuration.
pub trait ModuleRenderer: Sized {
    type Config: ModuleConfig;

    /// The renderer went from `before` to `self` by rendering one frame of `config`
    /// against `data`; each renderer says what rendering does to it.
    spec fn rendered(&self, before: Self, config: Self::Config, data: SceneData) -> bool;

    /// Renders one frame of the module.
    fn render(&mut self, config: &Self::Config, data: &SceneData)
        ensures
            final(self).rendered(*old(self), *config, *data),
    ;
}

/// A kind of module.
pub trait Module {
    type Config: ModuleConfig;
    type Renderer: ModuleRenderer<Config = Self::Config>;

    /// Creates a renderer.
    fn create_renderer() -> Self::Renderer;

    /// The name of the module kind.
    fn name() -> String;
}

/// One installed module: its renderer and its configuration.
pub struct InternalModuleContainer<M: Module> {
    renderer: M::Renderer,
    config: M::Config,
}

impl<M: Module> InternalModuleContainer<M> {
    /// The configuration in use.
    pub closed spec fn configuration(&self) -> M::Config {
        self.config
    }

    /// The renderer, in its current state.
    pub closed spec fn renderer_state(&self) -> M::Renderer {
        self.renderer
    }

    /// Pairs a renderer with its configuration.
    pub fn new(renderer: M::Renderer, config: M::Config) -> (container: Self)
        ensures
            container.configuration() == config,
            container.renderer_state() == renderer,
    {
        Self { renderer, config }
    }

    /// The configuration in use.
    pub fn config(&self) -> (config: &M::Config)
        ensures
            *config == self.configuration(),
    {
        &self.config
    }

    /// Replaces the configuration.
    pub fn update_config(&mut self, config: M::Config)
        ensures
            final(self).configuration() == config,
    {
        self.config = config;
    }

    /// Renders one frame with the current configuration: the renderer renders it once,
    /// and the configuration stays.
    pub fn run_frame(&mut self, data: &SceneData)
        ensures
            final(self).configuration() == old(self).configuration(),
            final(self).renderer_state().rendered(
                old(self).renderer_state(),
                old(self).configuration(),
                *data,
            ),
    {
        self.renderer.render(&self.config, data);
    }
}

impl ModuleConfig for HorizontalPositionAnchor {}

impl ModuleConfig for VerticalPositionAnchor {}

impl ModuleConfig for DisplaySelection {}

impl ModuleConfig for ModulePosition {}

} // verus!
