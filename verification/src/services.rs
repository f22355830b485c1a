//! Domain services - business logic for the content-curation domain.

pub mod garden;
pub mod media;

pub use garden::GardenService;
pub use media::MediaInfo;
pub use media::MediaType;
pub use media::get_extension_for_mime;
pub use media::media_file_name;
pub use media::primary_mime;
