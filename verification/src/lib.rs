//! Backend-agnostic core of a UI toolkit: widget state storage, input
//! bookkeeping, focus tracking and widget ID generation.

pub mod content;
pub mod context;
pub mod debug;
pub mod events;
pub mod ids;
pub mod input;
pub mod layout;
pub mod memory;
pub mod node;

pub use content::{HorizontalAlign, VerticalAlign, Wrap};
pub use context::{EventKind, FrameEvent, UiContext};
pub use debug::DebugOptions;
pub use events::{EventDispatcher, InteractionState};
pub use input::{ButtonSet, InputState, Key, MouseButton, NamedKey};
pub use layout::{Layout, Overflow, ScrollDirection};
pub use memory::{
    CollapsibleState, DragValueState, SliderState, StoredState, TextInputState, ToggleState, WidgetState,
    WidgetMemory, WidgetStateId,
};
pub use node::NodeId;
