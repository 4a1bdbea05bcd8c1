//! Tipos de datos del marketplace: identidades, roles, usuarios, productos,
//! órdenes, errores y las notificaciones que emite el motor.

use vstd::prelude::*;

verus! {

/// Roles posibles de usuario.
#[derive(Debug, Clone, Copy, PartialEq, Eq, Structural)]
pub enum RolUsuario {
    Comprador,
    Vendedor,
    Ambos,
}

/// Estados posibles de una orden.
#[derive(Debug, Clone, Copy, PartialEq, Eq, Structural)]
pub enum EstadoOrden {
    Pendiente,
    Enviada,
    Recibida,
    Cancelada,
}

/// Errores del sistema: todos son resultados esperables y recuperables.
#[derive(Debug, Clone, Copy, PartialEq, Eq, Structural)]
pub enum SistemaError {
    CantidadInsuficiente,
    UsuarioNoRegistrado,
    ProductosVacios,
    NoEsRolCorrecto,
    EstadoInvalido,
    OrdenNoExiste,
    UsuarioExistente,
    StockInsuficiente,
    CalificacionInvalida,
    YaCalificado,
}

/// Identidad opaca de un actor: 32 octetos empaquetados en cuatro palabras
/// de 64 bits, en orden little-endian dentro de cada palabra.
#[derive(Debug, Clone, Copy, PartialEq, Eq, Structural)]
pub struct AccountId {
    pub palabra0: u64,
    pub palabra1: u64,
    pub palabra2: u64,
    pub palabra3: u64,
}

/// Valor little-endian de los ocho octetos `s[8k .. 8k+8]`.
pub open spec fn palabra_de_octetos(s: Seq<u8>, k: int) -> u64 {
    ((s[8 * k] as int) + (s[8 * k + 1] as int) * 0x100 + (s[8 * k + 2] as int) * 0x1_0000 + (s[8 * k
        + 3] as int) * 0x100_0000 + (s[8 * k + 4] as int) * 0x1_0000_0000 + (s[8 * k + 5] as int)
        * 0x100_0000_0000 + (s[8 * k + 6] as int) * 0x1_0000_0000_0000 + (s[8 * k + 7] as int)
        * 0x100_0000_0000_0000) as u64
}

/// Empaqueta ocho octetos consecutivos en una palabra de 64 bits.
fn palabra_exec(octetos: &[u8; 32], k: usize) -> (r: u64)
    requires
        k < 4,
    ensures
        r == palabra_de_octetos(octetos@, k as int),
{
    (octetos[8 * k] as u64) + (octetos[8 * k + 1] as u64) * 0x100 + (octetos[8 * k + 2] as u64)
        * 0x1_0000 + (octetos[8 * k + 3] as u64) * 0x100_0000 + (octetos[8 * k + 4] as u64)
        * 0x1_0000_0000 + (octetos[8 * k + 5] as u64) * 0x100_0000_0000 + (octetos[8 * k + 6]
        as u64) * 0x1_0000_0000_0000 + (octetos[8 * k + 7] as u64) * 0x100_0000_0000_0000
}

impl From<[u8; 32]> for AccountId {
    /// Conversión inyectiva desde los 32 octetos de una identidad.
    fn from(octetos: [u8; 32]) -> (r: AccountId) {
        AccountId {
            palabra0: palabra_exec(&octetos, 0),
            palabra1: palabra_exec(&octetos, 1),
            palabra2: palabra_exec(&octetos, 2),
            palabra3: palabra_exec(&octetos, 3),
        }
    }
}

impl vstd::std_specs::convert::FromSpecImpl<[u8; 32]> for AccountId {
    open spec fn obeys_from_spec() -> bool {
        true
    }

    open spec fn from_spec(octetos: [u8; 32]) -> AccountId {
        AccountId {
            palabra0: palabra_de_octetos(octetos@, 0),
            palabra1: palabra_de_octetos(octetos@, 1),
            palabra2: palabra_de_octetos(octetos@, 2),
            palabra3: palabra_de_octetos(octetos@, 3),
        }
    }
}

/// Magnitud monetaria; el precio es informativo, nunca se opera sobre él.
pub type Balance = u128;

/// Usuario del marketplace.
#[derive(Debug, Clone, Copy, PartialEq, Eq, Structural)]
pub struct Usuario {
    pub direccion: AccountId,
    pub rol: RolUsuario,
    pub reputacion_como_comprador: u32,
    pub reputacion_como_vendedor: u32,
}

/// Producto del catálogo.
#[derive(Debug, PartialEq, Eq)]
pub struct Producto {
    pub id: u32,
    pub nombre: String,
    pub descripcion: String,
    pub precio: Balance,
    pub cantidad: u32,
    pub categoria: String,
    pub vendedor: AccountId,
}

impl Producto {
    /// Nuevo producto.
    pub fn nuevo(
        id: u32,
        nombre: String,
        descripcion: String,
        precio: Balance,
        cantidad: u32,
        categoria: String,
        vendedor: AccountId,
    ) -> (r: Self)
        ensures
            r == (Producto { id, nombre, descripcion, precio, cantidad, categoria, vendedor }),
    {
        Self { id, nombre, descripcion, precio, cantidad, categoria, vendedor }
    }
}

impl Clone for Producto {
    /// La copia conserva todos los campos.
    fn clone(&self) -> (r: Self)
        ensures
            r == *self,
    {
        Producto {
            id: self.id,
            nombre: self.nombre.clone(),
            descripcion: self.descripcion.clone(),
            precio: self.precio,
            cantidad: self.cantidad,
            categoria: self.categoria.clone(),
            vendedor: self.vendedor,
        }
    }
}

/// Representa una orden.
#[derive(Debug, Clone, Copy, PartialEq, Eq, Structural)]
pub struct Orden {
    pub id: u32,
    pub comprador: AccountId,
    pub vendedor: AccountId,
    pub producto_id: u32,
    pub cantidad: u32,
    pub estado: EstadoOrden,
    pub comprador_califico: bool,
    pub vendedor_califico: bool,
    pub comprador_solicita_cancelacion: bool,
    pub vendedor_acepta_cancelacion: bool,
}

impl Orden {
    /// Nueva orden (pendiente, sin calificaciones ni solicitudes de cancelación).
    pub fn nueva(id: u32, comprador: AccountId, vendedor: AccountId, producto_id: u32, cantidad: u32) -> (r: Self)
        ensures
            r == Orden::inicial(id, comprador, vendedor, producto_id, cantidad),
    {
        Self {
            id,
            comprador,
            vendedor,
            producto_id,
            cantidad,
            estado: EstadoOrden::Pendiente,
            comprador_califico: false,
            vendedor_califico: false,
            comprador_solicita_cancelacion: false,
            vendedor_acepta_cancelacion: false,
        }
    }

    /// Valor con el que nace toda orden.
    pub open spec fn inicial(
        id: u32,
        comprador: AccountId,
        vendedor: AccountId,
        producto_id: u32,
        cantidad: u32,
    ) -> Orden {
        Orden {
            id,
            comprador,
            vendedor,
            producto_id,
            cantidad,
            estado: EstadoOrden::Pendiente,
            comprador_califico: false,
            vendedor_califico: false,
            comprador_solicita_cancelacion: false,
            vendedor_acepta_cancelacion: false,
        }
    }
}

/// Notificación de cambio de rol.
#[derive(Debug, Clone, Copy, PartialEq, Eq, Structural)]
pub struct RolActualizado {
    pub cuenta: AccountId,
    pub rol_anterior: RolUsuario,
    pub rol_nuevo: RolUsuario,
}

/// Notificación de producto publicado.
#[derive(Debug, Clone, Copy, PartialEq, Eq, Structural)]
pub struct ProductoPublicado {
    pub vendedor: AccountId,
    pub producto_id: u32,
}

/// Notificación: el comprador calificó al vendedor de la orden.
#[derive(Debug, Clone, Copy, PartialEq, Eq, Structural)]
pub struct CompradorCalifico {
    pub orden_id: u32,
    pub comprador: AccountId,
    pub vendedor: AccountId,
    pub calificacion: u32,
}

/// Notificación: el vendedor calificó al comprador de la orden.
#[derive(Debug, Clone, Copy, PartialEq, Eq, Structural)]
pub struct VendedorCalifico {
    pub orden_id: u32,
    pub vendedor: AccountId,
    pub comprador: AccountId,
    pub calificacion: u32,
}

/// Una notificación cualquiera, en la bitácora del motor.
#[derive(Debug, Clone, Copy, PartialEq, Eq, Structural)]
pub enum Evento {
    RolActualizado(RolActualizado),
    ProductoPublicado(ProductoPublicado),
    CompradorCalifico(CompradorCalifico),
    VendedorCalifico(VendedorCalifico),
}

/// Renglón del reporte de productos más vendidos.
#[derive(Debug, PartialEq, Eq)]
pub struct ReporteProductoVendido {
    pub nombre_producto: String,
    pub total_vendido: u32,
}

impl Clone for ReporteProductoVendido {
    /// La copia conserva todos los campos.
    fn clone(&self) -> (r: Self)
        ensures
            r == *self,
    {
        ReporteProductoVendido {
            nombre_producto: self.nombre_producto.clone(),
            total_vendido: self.total_vendido,
        }
    }
}

} // verus!
