//! What the dashboard knows of Tilt: services, their status, and what can be
//! done to them.

pub mod activation;
pub mod buttons;
pub mod model;
pub mod resources;

pub use crate::tilt::activation::{
    activate_service_action, open_tilt_web_ui, tilt_web_url, Activation,
};
pub use crate::tilt::buttons::{attach_service_actions, parse_ui_buttons, ButtonActions};
pub use crate::tilt::model::{
    CircleStatus, DashboardSnapshot, ResourceGroup, Service, ServiceAction, SessionIdentity,
    UIButtonInputValue,
};
pub use crate::tilt::resources::{
    parse_session_identity, parse_ui_resources, BuildRecord, DisableStatus, EndpointLink, Metadata,
    ResourceStatus, SessionList, TiltSession, UIResource, UIResourceList,
};
