pub mod object_of_controller;
pub mod api_user_controller;
pub mod api_controller;
pub mod view_controller;
