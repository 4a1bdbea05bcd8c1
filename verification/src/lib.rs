//! Marketplace transaccional: usuarios con roles, catálogo de productos,
//! órdenes con máquina de estados, cancelación por consentimiento mutuo,
//! reputación bilateral y una capa de reportes de sólo lectura.
//!
//! El estado vive en arenas indexadas por identificadores secuenciales; la
//! identidad que invoca cada operación se recibe como parámetro explícito, y
//! las notificaciones se acumulan en una bitácora ordenada con las mutaciones
//! que las causan.

pub mod mercado;
pub mod reportes;
pub mod tipos;

pub use tipos::AccountId;
pub use tipos::Balance;
pub use tipos::CompradorCalifico;
pub use tipos::EstadoOrden;
pub use tipos::Evento;
pub use tipos::Orden;
pub use tipos::Producto;
pub use tipos::ProductoPublicado;
pub use tipos::ReporteProductoVendido;
pub use tipos::RolActualizado;
pub use tipos::RolUsuario;
pub use tipos::SistemaError;
pub use tipos::Usuario;
pub use tipos::VendedorCalifico;

pub use mercado::Marketplace;
pub use reportes::MarketplaceTrait;
pub use reportes::ReportesView;
