pub mod brew_common;
pub mod brew_fetch_packages;
pub mod brew_install_packages;
pub mod brew_list_installed_packages;
pub mod brew_recipe_lock;
pub mod brew_remove_packages;
pub mod name_order;
