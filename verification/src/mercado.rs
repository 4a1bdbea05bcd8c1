//! Motor del marketplace: arenas de usuarios, productos y órdenes, con la
//! máquina de estados de las órdenes, la cancelación por consentimiento mutuo
//! y el libro de reputaciones.
//!
//! Cada operación pública recibe la identidad invocante como parámetro,
//! valida todas sus precondiciones contra el estado y recién entonces muta;
//! ningún error deja una mutación parcial.

use crate::tipos::AccountId;
use crate::tipos::Balance;
use crate::tipos::CompradorCalifico;
use crate::tipos::EstadoOrden;
use crate::tipos::Evento;
use crate::tipos::Orden;
use crate::tipos::Producto;
use crate::tipos::ProductoPublicado;
use crate::tipos::RolActualizado;
use crate::tipos::RolUsuario;
use crate::tipos::SistemaError;
use crate::tipos::Usuario;
use crate::tipos::VendedorCalifico;
use vstd::prelude::*;

verus! {

/// El rol permite comprar.
pub open spec fn puede_comprar(rol: RolUsuario) -> bool {
    rol == RolUsuario::Comprador || rol == RolUsuario::Ambos
}

/// El rol permite vender.
pub open spec fn puede_vender(rol: RolUsuario) -> bool {
    rol == RolUsuario::Vendedor || rol == RolUsuario::Ambos
}

/// Transiciones directas de rol permitidas: Comprador y Vendedor sólo se
/// intercambian entre sí, Ambos puede pasar a cualquiera de los otros dos,
/// nadie llega a Ambos, y quedarse en el mismo rol no es una transición.
pub open spec fn transicion_rol_valida(actual: RolUsuario, nuevo: RolUsuario) -> bool {
    &&& actual != nuevo
    &&& match actual {
        RolUsuario::Ambos => true,
        RolUsuario::Comprador => nuevo == RolUsuario::Vendedor,
        RolUsuario::Vendedor => nuevo == RolUsuario::Comprador,
    }
}

/// Unidades que la orden compromete del producto `producto_id`: su cantidad
/// mientras no esté cancelada.
pub open spec fn aporte_activo(o: Orden, producto_id: int) -> int {
    if o.producto_id == producto_id && o.estado != EstadoOrden::Cancelada {
        o.cantidad as int
    } else {
        0
    }
}

/// Suma de las unidades comprometidas por las órdenes no canceladas del
/// producto `producto_id`.
pub open spec fn demanda_activa(ordenes: Seq<Orden>, producto_id: int) -> int
    decreases ordenes.len(),
{
    if ordenes.len() == 0 {
        0
    } else {
        demanda_activa(ordenes.drop_last(), producto_id) + aporte_activo(
            ordenes.last(),
            producto_id,
        )
    }
}

/// Si ninguna orden es del producto, la demanda activa es nula.
pub proof fn lemma_demanda_fuera(ordenes: Seq<Orden>, producto_id: int)
    requires
        forall|k: int| 0 <= k < ordenes.len() ==> ordenes[k].producto_id != producto_id,
    ensures
        demanda_activa(ordenes, producto_id) == 0,
    decreases ordenes.len(),
{
    if ordenes.len() > 0 {
        lemma_demanda_fuera(ordenes.drop_last(), producto_id);
    }
}

/// Agregar una orden suma exactamente su aporte.
pub proof fn lemma_demanda_push(ordenes: Seq<Orden>, o: Orden, producto_id: int)
    ensures
        demanda_activa(ordenes.push(o), producto_id) == demanda_activa(ordenes, producto_id)
            + aporte_activo(o, producto_id),
{
    assert(ordenes.push(o).drop_last() =~= ordenes);
}

/// Reemplazar una orden cambia la demanda en la diferencia de aportes.
pub proof fn lemma_demanda_update(ordenes: Seq<Orden>, k: int, o: Orden, producto_id: int)
    requires
        0 <= k < ordenes.len(),
    ensures
        demanda_activa(ordenes.update(k, o), producto_id) == demanda_activa(ordenes, producto_id)
            - aporte_activo(ordenes[k], producto_id) + aporte_activo(o, producto_id),
    decreases ordenes.len(),
{
    let s2 = ordenes.update(k, o);
    if k == ordenes.len() - 1 {
        assert(s2.drop_last() =~= ordenes.drop_last());
    } else {
        assert(s2.drop_last() =~= ordenes.drop_last().update(k, o));
        lemma_demanda_update(ordenes.drop_last(), k, o, producto_id);
    }
}

/// La demanda activa nunca es negativa.
pub proof fn lemma_demanda_no_negativa(ordenes: Seq<Orden>, producto_id: int)
    ensures
        demanda_activa(ordenes, producto_id) >= 0,
    decreases ordenes.len(),
{
    if ordenes.len() > 0 {
        lemma_demanda_no_negativa(ordenes.drop_last(), producto_id);
    }
}

/// La demanda activa cubre el aporte de cada orden por separado.
pub proof fn lemma_demanda_cubre_orden(ordenes: Seq<Orden>, k: int, producto_id: int)
    requires
        0 <= k < ordenes.len(),
    ensures
        demanda_activa(ordenes, producto_id) >= aporte_activo(ordenes[k], producto_id),
    decreases ordenes.len(),
{
    if k == ordenes.len() - 1 {
        lemma_demanda_no_negativa(ordenes.drop_last(), producto_id);
    } else {
        lemma_demanda_cubre_orden(ordenes.drop_last(), k, producto_id);
    }
}

/// Suma saturada en `u32`: la política deliberada de desborde de los
/// contadores de reputación y de la reposición de stock.
pub open spec fn suma_saturada(a: u32, b: u32) -> u32 {
    if a + b > u32::MAX {
        u32::MAX
    } else {
        (a + b) as u32
    }
}

/// Productos del vendedor dado, en orden de publicación.
pub open spec fn productos_de(productos: Seq<Producto>, vendedor: AccountId) -> Seq<Producto>
    decreases productos.len(),
{
    if productos.len() == 0 {
        Seq::empty()
    } else {
        let prefijo = productos_de(productos.drop_last(), vendedor);
        if productos.last().vendedor == vendedor {
            prefijo.push(productos.last())
        } else {
            prefijo
        }
    }
}

/// Estado completo del marketplace.
///
/// Los productos y las órdenes son arenas: el identificador de cada registro
/// es su posición, los contadores de la versión original son las longitudes, y
/// nada se borra jamás. Las notificaciones se acumulan en `eventos`, en el
/// orden de las mutaciones que las causaron.
pub struct Marketplace {
    pub usuarios: Vec<Usuario>,
    pub productos: Vec<Producto>,
    pub ordenes: Vec<Orden>,
    pub eventos: Vec<Evento>,
}

impl Marketplace {
    /// Ningún par de usuarios comparte dirección.
    pub open spec fn usuarios_unicos(self) -> bool {
        forall|i: int, j: int|
            0 <= i < j < self.usuarios@.len() ==> self.usuarios@[i].direccion
                != self.usuarios@[j].direccion
    }

    /// Cada producto lleva como identificador su posición en la arena.
    pub open spec fn productos_indexados(self) -> bool {
        &&& self.productos@.len() <= u32::MAX
    &&& forall|i: int|
        0 <= i < self.productos@.len() ==> (#[trigger] self.productos@[i]).id == i
    }

    /// Cada orden lleva su posición como identificador, refiere a un producto
    /// existente y compromete al menos una unidad.
    pub open spec fn ordenes_validas(self) -> bool {
        &&& self.ordenes@.len() <= u32::MAX
    &&& forall|i: int|
        0 <= i < self.ordenes@.len() ==> {
            let o = #[trigger] self.ordenes@[i];
            o.id == i && o.producto_id < self.productos@.len() && o.cantidad >= 1
        }
    }

    /// Stock disponible del producto más las unidades comprometidas por sus
    /// órdenes activas. La creación de órdenes y la cancelación mutua mueven
    /// unidades entre los dos sumandos sin alterar la suma.
    pub open spec fn stock_mas_demanda(self, producto_id: int) -> int {
        self.productos@[producto_id].cantidad + demanda_activa(self.ordenes@, producto_id)
    }

    /// La suma de stock y demanda activa de cada producto cabe en `u32`: es el
    /// stock con el que el producto fue publicado más lo repuesto, y garantiza
    /// que la devolución de stock de una cancelación nunca sature.
    pub open spec fn stock_acotado(self) -> bool {
        forall|p: int|
            0 <= p < self.productos@.len() ==> #[trigger] self.stock_mas_demanda(p) <= u32::MAX
    }

    /// Invariante de estado del marketplace: lo establece el constructor y lo
    /// preserva cada operación.
    pub open spec fn bien_formado(self) -> bool {
        &&& self.usuarios_unicos()
        &&& self.productos_indexados()
        &&& self.ordenes_validas()
        &&& self.stock_acotado()
    }

    /// Hay un usuario registrado con esta dirección.
    pub open spec fn tiene_usuario(self, direccion: AccountId) -> bool {
        exists|i: int| 0 <= i < self.usuarios@.len() && self.usuarios@[i].direccion == direccion
    }

    /// Posición del usuario con esta dirección (única bajo el invariante).
    pub open spec fn indice_usuario(self, direccion: AccountId) -> int {
        choose|i: int| 0 <= i < self.usuarios@.len() && self.usuarios@[i].direccion == direccion
    }

    /// El usuario registrado con esta dirección.
    pub open spec fn usuario_de(self, direccion: AccountId) -> Usuario {
        self.usuarios@[self.indice_usuario(direccion)]
    }

    /// Rol actual del usuario con esta dirección.
    pub open spec fn rol_de(self, direccion: AccountId) -> RolUsuario {
        self.usuario_de(direccion).rol
    }

    /// Constructor inicial: todas las arenas vacías.
    pub fn nuevo() -> (r: Self)
        ensures
            r.bien_formado(),
            r.usuarios@ =~= Seq::<Usuario>::empty(),
            r.productos@ =~= Seq::<Producto>::empty(),
            r.ordenes@ =~= Seq::<Orden>::empty(),
            r.eventos@ =~= Seq::<Evento>::empty(),
    {
        Self { usuarios: Vec::new(), productos: Vec::new(), ordenes: Vec::new(), eventos: Vec::new() }
    }

    /// Cantidad total de productos publicados.
    pub fn obtener_cantidad_productos(&self) -> (r: u32)
        requires
            self.bien_formado(),
        ensures
            r == self.productos@.len(),
    {
        self.productos.len() as u32
    }

    /// Cantidad total de órdenes generadas.
    pub fn obtener_cantidad_ordenes(&self) -> (r: u32)
        requires
            self.bien_formado(),
        ensures
            r == self.ordenes@.len(),
    {
        self.ordenes.len() as u32
    }

    /// Posición del usuario con esta dirección, si existe.
    fn buscar_usuario(&self, direccion: AccountId) -> (r: Option<usize>)
        ensures
            match r {
                Some(i) => i < self.usuarios@.len() && self.usuarios@[i as int].direccion
                    == direccion,
                None => !self.tiene_usuario(direccion),
            },
    {
        let mut i: usize = 0;
        while i < self.usuarios.len()
            invariant
                i <= self.usuarios@.len(),
                forall|k: int| 0 <= k < i ==> self.usuarios@[k].direccion != direccion,
            decreases self.usuarios@.len() - i,
        {
            if self.usuarios[i].direccion == direccion {
                return Some(i);
            }
            i += 1;
        }
        None
    }

    /// Verifica si una cuenta ya está registrada en el marketplace.
    pub fn esta_registrado(&self, usuario: AccountId) -> (r: bool)
        ensures
            r == self.tiene_usuario(usuario),
    {
        self.buscar_usuario(usuario).is_some()
    }

    /// Obtiene los datos completos de un usuario registrado, o `None` si la
    /// dirección no está registrada.
    pub fn obtener_usuario(&self, usuario: AccountId) -> (r: Option<Usuario>)
        requires
            self.bien_formado(),
        ensures
            match r {
                Some(u) => self.tiene_usuario(usuario) && u == self.usuario_de(usuario),
                None => !self.tiene_usuario(usuario),
            },
    {
        match self.buscar_usuario(usuario) {
            Some(i) => Some(self.usuarios[i]),
            None => None,
        }
    }

    /// Resultado de registrar la dirección `caller`.
    pub open spec fn resultado_registrar(self, caller: AccountId) -> Result<(), SistemaError> {
        if self.tiene_usuario(caller) {
            Err(SistemaError::UsuarioExistente)
        } else {
            Ok(())
        }
    }

    /// Registra un nuevo usuario con el rol especificado; falla con
    /// `UsuarioExistente` si la dirección ya estaba registrada.
    pub fn registrar_usuario(&mut self, caller: AccountId, rol: RolUsuario) -> (r: Result<
        (),
        SistemaError,
    >)
        requires
            old(self).bien_formado(),
        ensures
            final(self).bien_formado(),
            r == old(self).resultado_registrar(caller),
            r is Err ==> *final(self) == *old(self),
            r is Ok ==> final(self).usuarios@ == old(self).usuarios@.push(
                Usuario {
                    direccion: caller,
                    rol,
                    reputacion_como_comprador: 0,
                    reputacion_como_vendedor: 0,
                },
            ),
            r is Ok ==> final(self).tiene_usuario(caller) && final(self).usuario_de(caller) == (
            Usuario {
                direccion: caller,
                rol,
                reputacion_como_comprador: 0,
                reputacion_como_vendedor: 0,
            }),
            final(self).productos@ == old(self).productos@,
            final(self).ordenes@ == old(self).ordenes@,
            final(self).eventos@ == old(self).eventos@,
    {
        if self.esta_registrado(caller) {
            return Err(SistemaError::UsuarioExistente);
        }
        let nuevo_usuario = Usuario {
            direccion: caller,
            rol,
            reputacion_como_comprador: 0,
            reputacion_como_vendedor: 0,
        };
        self.usuarios.push(nuevo_usuario);
        proof {
            let ghost viejo = *old(self);
            let ghost m = *self;
            let ghost n = m.usuarios@.len() - 1;
            assert(m.usuarios@[n].direccion == caller);
            let ghost i = m.indice_usuario(caller);
            assert(m.usuarios@[i].direccion == caller);
            assert forall|i: int, j: int|
                0 <= i < j < m.usuarios@.len() implies m.usuarios@[i].direccion
                != m.usuarios@[j].direccion by {
                if j < viejo.usuarios@.len() {
                    assert(viejo.usuarios@[i].direccion != viejo.usuarios@[j].direccion);
                } else {
                    assert(m.usuarios@[j].direccion == caller);
                    assert(viejo.usuarios@[i].direccion != caller);
                }
            }
            assert forall|p: int|
                0 <= p < m.productos@.len() implies #[trigger] m.stock_mas_demanda(p)
                <= u32::MAX by {
                assert(viejo.stock_mas_demanda(p) <= u32::MAX);
                assert(m.stock_mas_demanda(p) == viejo.stock_mas_demanda(p));
            }
        }
        Ok(())
    }

    /// Resultado de que `caller` pida cambiar su rol a `nuevo_rol`.
    pub open spec fn resultado_modificar_rol(
        self,
        caller: AccountId,
        nuevo_rol: RolUsuario,
    ) -> Result<(), SistemaError> {
        if !self.tiene_usuario(caller) {
            Err(SistemaError::UsuarioNoRegistrado)
        } else if !transicion_rol_valida(self.rol_de(caller), nuevo_rol) {
            Err(SistemaError::NoEsRolCorrecto)
        } else {
            Ok(())
        }
    }

    /// Modifica el rol del usuario invocante si la transición es válida; deja
    /// constancia en la bitácora con el rol anterior y el nuevo.
    pub fn modificar_rol_usuario(&mut self, caller: AccountId, nuevo_rol: RolUsuario) -> (r: Result<
        (),
        SistemaError,
    >)
        requires
            old(self).bien_formado(),
        ensures
            final(self).bien_formado(),
            r == old(self).resultado_modificar_rol(caller, nuevo_rol),
            r is Err ==> *final(self) == *old(self),
            r is Ok ==> final(self).usuarios@ == old(self).usuarios@.update(
                old(self).indice_usuario(caller),
                Usuario { rol: nuevo_rol, ..old(self).usuario_de(caller) },
            ),
            r is Ok ==> final(self).tiene_usuario(caller) && final(self).usuario_de(caller) == (
            Usuario { rol: nuevo_rol, ..old(self).usuario_de(caller) }),
            r is Ok ==> final(self).eventos@ == old(self).eventos@.push(
                Evento::RolActualizado(
                    RolActualizado {
                        cuenta: caller,
                        rol_anterior: old(self).rol_de(caller),
                        rol_nuevo: nuevo_rol,
                    },
                ),
            ),
            final(self).productos@ == old(self).productos@,
            final(self).ordenes@ == old(self).ordenes@,
            r is Err ==> final(self).eventos@ == old(self).eventos@,
    {
        let indice = match self.buscar_usuario(caller) {
            Some(i) => i,
            None => { return Err(SistemaError::UsuarioNoRegistrado) },
        };
        proof {
            let ghost m = *self;
            let ghost j = m.indice_usuario(caller);
            assert(m.usuarios@[j].direccion == caller);
            assert(j == indice) by {
                if j < indice {
                    assert(false);
                } else if indice < j {
                    assert(false);
                }
            }
        }
        let usuario = self.usuarios[indice];
        if usuario.rol == nuevo_rol {
            return Err(SistemaError::NoEsRolCorrecto);
        }
        match usuario.rol {
            RolUsuario::Ambos => {},
            RolUsuario::Comprador => {
                if nuevo_rol != RolUsuario::Vendedor {
                    return Err(SistemaError::NoEsRolCorrecto);
                }
            },
            RolUsuario::Vendedor => {
                if nuevo_rol != RolUsuario::Comprador {
                    return Err(SistemaError::NoEsRolCorrecto);
                }
            },
        }
        let rol_anterior = usuario.rol;
        let actualizado = Usuario { rol: nuevo_rol, ..usuario };
        self.usuarios[indice] = actualizado;
        self.eventos.push(
            Evento::RolActualizado(
                RolActualizado { cuenta: caller, rol_anterior, rol_nuevo: nuevo_rol },
            ),
        );
        proof {
            let ghost viejo = *old(self);
            let ghost m = *self;
            assert forall|i: int, j: int|
                0 <= i < j < m.usuarios@.len() implies m.usuarios@[i].direccion
                != m.usuarios@[j].direccion by {
                assert(viejo.usuarios@[i].direccion != viejo.usuarios@[j].direccion);
                assert(m.usuarios@[i].direccion == viejo.usuarios@[i].direccion);
                assert(m.usuarios@[j].direccion == viejo.usuarios@[j].direccion);
            }
            assert forall|p: int|
                0 <= p < m.productos@.len() implies #[trigger] m.stock_mas_demanda(p)
                <= u32::MAX by {
                assert(viejo.stock_mas_demanda(p) <= u32::MAX);
                assert(m.stock_mas_demanda(p) == viejo.stock_mas_demanda(p));
            }
            let ghost j = m.indice_usuario(caller);
            assert(m.usuarios@[indice as int].direccion == caller);
            assert(m.usuarios@[j].direccion == caller);
            assert(j == indice) by {
                if j < indice {
                    assert(false);
                } else if indice < j {
                    assert(false);
                }
            }
        }
        Ok(())
    }

    /// Verifica si un usuario está registrado.
    fn verificar_registro(&self, usuario: AccountId) -> (r: Result<(), SistemaError>)
        ensures
            r is Ok <==> self.tiene_usuario(usuario),
            r is Err ==> r == Err::<(), SistemaError>(SistemaError::UsuarioNoRegistrado),
    {
        if !self.esta_registrado(usuario) {
            Err(SistemaError::UsuarioNoRegistrado)
        } else {
            Ok(())
        }
    }

    /// El rol registrado habilita lo que pide `rol_requerido`: Comprador y
    /// Vendedor se habilitan a sí mismos y Ambos habilita todo.
    pub open spec fn rol_habilita(actual: RolUsuario, rol_requerido: RolUsuario) -> bool {
        match (actual, rol_requerido) {
            (RolUsuario::Comprador, RolUsuario::Comprador) => true,
            (RolUsuario::Vendedor, RolUsuario::Vendedor) => true,
            (RolUsuario::Ambos, _) => true,
            _ => false,
        }
    }

    /// Verifica si el usuario tiene el rol requerido.
    fn verificar_rol(&self, usuario: AccountId, rol_requerido: RolUsuario) -> (r: Result<
        (),
        SistemaError,
    >)
        requires
            self.bien_formado(),
        ensures
            r is Ok <==> self.tiene_usuario(usuario) && Self::rol_habilita(
                self.rol_de(usuario),
                rol_requerido,
            ),
            !self.tiene_usuario(usuario) ==> r == Err::<(), SistemaError>(
                SistemaError::UsuarioNoRegistrado,
            ),
            self.tiene_usuario(usuario) && !Self::rol_habilita(self.rol_de(usuario), rol_requerido)
                ==> r == Err::<(), SistemaError>(SistemaError::NoEsRolCorrecto),
    {
        let datos = match self.obtener_usuario(usuario) {
            Some(u) => u,
            None => { return Err(SistemaError::UsuarioNoRegistrado) },
        };
        match (datos.rol, rol_requerido) {
            (RolUsuario::Comprador, RolUsuario::Comprador) => Ok(()),
            (RolUsuario::Vendedor, RolUsuario::Vendedor) => Ok(()),
            (RolUsuario::Ambos, _) => Ok(()),
            _ => Err(SistemaError::NoEsRolCorrecto),
        }
    }

    /// Verifica que la cantidad no sea nula.
    fn verificar_cantidad(&self, cantidad: u32) -> (r: Result<(), SistemaError>)
        ensures
            r is Ok <==> cantidad != 0,
            r is Err ==> r == Err::<(), SistemaError>(SistemaError::CantidadInsuficiente),
    {
        if cantidad == 0 {
            Err(SistemaError::CantidadInsuficiente)
        } else {
            Ok(())
        }
    }

    /// Resultado de que `caller` publique un producto con el stock `cantidad`.
    pub open spec fn resultado_publicar(self, caller: AccountId, cantidad: u32) -> Result<
        (),
        SistemaError,
    > {
        if !self.tiene_usuario(caller) {
            Err(SistemaError::UsuarioNoRegistrado)
        } else if !puede_vender(self.rol_de(caller)) {
            Err(SistemaError::NoEsRolCorrecto)
        } else if cantidad == 0 {
            Err(SistemaError::CantidadInsuficiente)
        } else if self.productos@.len() == u32::MAX {
            Err(SistemaError::ProductosVacios)
        } else {
            Ok(())
        }
    }

    /// Asigna el siguiente identificador, guarda el producto y deja la
    /// notificación de publicación en la bitácora.
    fn agregar_producto(
        &mut self,
        nombre: String,
        descripcion: String,
        precio: Balance,
        cantidad: u32,
        categoria: String,
        vendedor: AccountId,
    ) -> (r: Result<(), SistemaError>)
        requires
            old(self).bien_formado(),
            cantidad >= 1,
        ensures
            final(self).bien_formado(),
            r is Err ==> *final(self) == *old(self) && old(self).productos@.len() == u32::MAX && r
                == Err::<(), SistemaError>(SistemaError::ProductosVacios),
            r is Ok ==> old(self).productos@.len() < u32::MAX,
            r is Ok ==> final(self).productos@ == old(self).productos@.push(
                Producto {
                    id: old(self).productos@.len() as u32,
                    nombre,
                    descripcion,
                    precio,
                    cantidad,
                    categoria,
                    vendedor,
                },
            ),
            r is Ok ==> final(self).eventos@ == old(self).eventos@.push(
                Evento::ProductoPublicado(
                    ProductoPublicado {
                        vendedor,
                        producto_id: old(self).productos@.len() as u32,
                    },
                ),
            ),
            final(self).usuarios@ == old(self).usuarios@,
            final(self).ordenes@ == old(self).ordenes@,
            r is Ok ==> forall|p: int|
                0 <= p < old(self).productos@.len() ==> #[trigger] final(self).stock_mas_demanda(p)
                    == old(self).stock_mas_demanda(p),
            r is Ok ==> final(self).stock_mas_demanda(old(self).productos@.len() as int)
                == cantidad,
    {
        if self.productos.len() >= u32::MAX as usize {
            return Err(SistemaError::ProductosVacios);
        }
        let id = self.productos.len() as u32;
        let nuevo = Producto::nuevo(id, nombre, descripcion, precio, cantidad, categoria, vendedor);
        self.productos.push(nuevo);
        self.eventos.push(
            Evento::ProductoPublicado(ProductoPublicado { vendedor, producto_id: id }),
        );
        proof {
            let ghost viejo = *old(self);
            let ghost m = *self;
            assert(demanda_activa(m.ordenes@, viejo.productos@.len() as int) == 0) by {
                lemma_demanda_fuera(m.ordenes@, viejo.productos@.len() as int);
            }
            assert forall|p: int|
                0 <= p < m.productos@.len() implies #[trigger] m.stock_mas_demanda(p)
                <= u32::MAX by {
                if p < viejo.productos@.len() {
                    assert(viejo.stock_mas_demanda(p) <= u32::MAX);
                    assert(m.stock_mas_demanda(p) == viejo.stock_mas_demanda(p));
                } else {
                    assert(m.stock_mas_demanda(p) == cantidad + demanda_activa(m.ordenes@, p));
                }
            }
            assert forall|p: int|
                0 <= p < viejo.productos@.len() implies #[trigger] m.stock_mas_demanda(p)
                == viejo.stock_mas_demanda(p) by {
                assert(m.productos@[p] == viejo.productos@[p]);
            }
        }
        Ok(())
    }

    /// Valida registro, rol y cantidad, y agrega el producto.
    fn crear_producto_seguro(
        &mut self,
        caller: AccountId,
        nombre: String,
        descripcion: String,
        precio: Balance,
        cantidad: u32,
        categoria: String,
    ) -> (r: Result<(), SistemaError>)
        requires
            old(self).bien_formado(),
        ensures
            final(self).bien_formado(),
            r == old(self).resultado_publicar(caller, cantidad),
            r is Err ==> *final(self) == *old(self),
            r is Ok ==> final(self).productos@ == old(self).productos@.push(
                Producto {
                    id: old(self).productos@.len() as u32,
                    nombre,
                    descripcion,
                    precio,
                    cantidad,
                    categoria,
                    vendedor: caller,
                },
            ),
            r is Ok ==> final(self).eventos@ == old(self).eventos@.push(
                Evento::ProductoPublicado(
                    ProductoPublicado {
                        vendedor: caller,
                        producto_id: old(self).productos@.len() as u32,
                    },
                ),
            ),
            final(self).usuarios@ == old(self).usuarios@,
            final(self).ordenes@ == old(self).ordenes@,
            r is Ok ==> forall|p: int|
                0 <= p < old(self).productos@.len() ==> #[trigger] final(self).stock_mas_demanda(p)
                    == old(self).stock_mas_demanda(p),
            r is Ok ==> final(self).stock_mas_demanda(old(self).productos@.len() as int)
                == cantidad,
    {
        match self.verificar_registro(caller) {
            Ok(()) => {},
            Err(e) => { return Err(e) },
        }
        match self.verificar_rol(caller, RolUsuario::Vendedor) {
            Ok(()) => {},
            Err(e) => { return Err(e) },
        }
        match self.verificar_cantidad(cantidad) {
            Ok(()) => {},
            Err(e) => { return Err(e) },
        }
        let r = self.agregar_producto(nombre, descripcion, precio, cantidad, categoria, caller);
        proof {
            let esperado = old(self).resultado_publicar(caller, cantidad);
            if r is Ok {
                assert(esperado is Ok);
                assert(r->Ok_0 == esperado->Ok_0);
                assert(r == esperado);
            } else {
                assert(esperado is Err);
                assert(r->Err_0 == esperado->Err_0);
                assert(r == esperado);
            }
        }
        r
    }

    /// Publica un nuevo producto en el catálogo a nombre del invocante.
    pub fn publicar_producto(
        &mut self,
        caller: AccountId,
        nombre: String,
        descripcion: String,
        precio: Balance,
        cantidad: u32,
        categoria: String,
    ) -> (r: Result<(), SistemaError>)
        requires
            old(self).bien_formado(),
        ensures
            final(self).bien_formado(),
            r == old(self).resultado_publicar(caller, cantidad),
            r is Err ==> *final(self) == *old(self),
            r is Ok ==> final(self).productos@ == old(self).productos@.push(
                Producto {
                    id: old(self).productos@.len() as u32,
                    nombre,
                    descripcion,
                    precio,
                    cantidad,
                    categoria,
                    vendedor: caller,
                },
            ),
            r is Ok ==> final(self).eventos@ == old(self).eventos@.push(
                Evento::ProductoPublicado(
                    ProductoPublicado {
                        vendedor: caller,
                        producto_id: old(self).productos@.len() as u32,
                    },
                ),
            ),
            final(self).usuarios@ == old(self).usuarios@,
            final(self).ordenes@ == old(self).ordenes@,
            r is Ok ==> forall|p: int|
                0 <= p < old(self).productos@.len() ==> #[trigger] final(self).stock_mas_demanda(p)
                    == old(self).stock_mas_demanda(p),
            r is Ok ==> final(self).stock_mas_demanda(old(self).productos@.len() as int)
                == cantidad,
    {
        self.crear_producto_seguro(caller, nombre, descripcion, precio, cantidad, categoria)
    }

    /// Productos publicados por `vendedor`, en orden de publicación; copia los
    /// registros y no exige que la dirección consultada esté registrada.
    pub fn listar_productos_por_vendedor_interno(&self, vendedor: AccountId) -> (r: Result<
        Vec<Producto>,
        SistemaError,
    >)
        ensures
            match r {
                Ok(v) => v@ == productos_de(self.productos@, vendedor) && v@.len() > 0,
                Err(e) => e == SistemaError::ProductosVacios && productos_de(
                    self.productos@,
                    vendedor,
                ).len() == 0,
            },
    {
        let mut resultado: Vec<Producto> = Vec::new();
        let mut i: usize = 0;
        while i < self.productos.len()
            invariant
                i <= self.productos@.len(),
                resultado@ == productos_de(self.productos@.take(i as int), vendedor),
            decreases self.productos@.len() - i,
        {
            proof {
                assert(self.productos@.take(i + 1).drop_last() =~= self.productos@.take(i as int));
                assert(self.productos@.take(i + 1).last() == self.productos@[i as int]);
            }
            if self.productos[i].vendedor == vendedor {
                resultado.push(self.productos[i].clone());
            }
            i += 1;
        }
        proof {
            assert(self.productos@.take(self.productos@.len() as int) =~= self.productos@);
        }
        if resultado.is_empty() {
            return Err(SistemaError::ProductosVacios);
        }
        Ok(resultado)
    }

    /// Resultado de que `vendedor` liste sus propios productos.
    pub open spec fn resultado_listar(self, vendedor: AccountId) -> Result<(), SistemaError> {
        if !self.tiene_usuario(vendedor) {
            Err(SistemaError::UsuarioNoRegistrado)
        } else if !puede_vender(self.rol_de(vendedor)) {
            Err(SistemaError::NoEsRolCorrecto)
        } else if productos_de(self.productos@, vendedor).len() == 0 {
            Err(SistemaError::ProductosVacios)
        } else {
            Ok(())
        }
    }

    /// Valida que `vendedor` exista y tenga rol de Vendedor o Ambos, y
    /// devuelve la lista de sus productos o el error que corresponda.
    pub fn listar_productos_interno(&self, vendedor: AccountId) -> (r: Result<
        Vec<Producto>,
        SistemaError,
    >)
        requires
            self.bien_formado(),
        ensures
            match r {
                Ok(v) => self.resultado_listar(vendedor) is Ok && v@ == productos_de(
                    self.productos@,
                    vendedor,
                ),
                Err(e) => self.resultado_listar(vendedor) == Err::<(), SistemaError>(e),
            },
    {
        match self.verificar_rol(vendedor, RolUsuario::Vendedor) {
            Ok(()) => {},
            Err(e) => { return Err(e) },
        }
        self.listar_productos_por_vendedor_interno(vendedor)
    }

    /// Lista los productos publicados por el propio invocante.
    pub fn listar_mis_productos(&self, caller: AccountId) -> (r: Result<Vec<Producto>, SistemaError>)
        requires
            self.bien_formado(),
        ensures
            match r {
                Ok(v) => self.resultado_listar(caller) is Ok && v@ == productos_de(
                    self.productos@,
                    caller,
                ),
                Err(e) => self.resultado_listar(caller) == Err::<(), SistemaError>(e),
            },
    {
        self.listar_productos_interno(caller)
    }

    /// Muestra los productos de un vendedor cualquiera, sin exigir registro
    /// ni rol a la dirección consultada.
    pub fn listar_productos_por_vendedor(&self, vendedor: AccountId) -> (r: Result<
        Vec<Producto>,
        SistemaError,
    >)
        ensures
            match r {
                Ok(v) => v@ == productos_de(self.productos@, vendedor) && v@.len() > 0,
                Err(e) => e == SistemaError::ProductosVacios && productos_de(
                    self.productos@,
                    vendedor,
                ).len() == 0,
            },
    {
        self.listar_productos_por_vendedor_interno(vendedor)
    }

    /// Resultado de que `caller` cree una orden de `cantidad` unidades del
    /// producto `producto_id`; en el éxito devuelve el identificador asignado.
    pub open spec fn resultado_crear_orden(
        self,
        caller: AccountId,
        producto_id: u32,
        cantidad: u32,
    ) -> Result<u32, SistemaError> {
        if !self.tiene_usuario(caller) {
            Err(SistemaError::UsuarioNoRegistrado)
        } else if !puede_comprar(self.rol_de(caller)) {
            Err(SistemaError::NoEsRolCorrecto)
        } else if cantidad == 0 {
            Err(SistemaError::CantidadInsuficiente)
        } else if producto_id >= self.productos@.len() {
            Err(SistemaError::ProductosVacios)
        } else if self.productos@[producto_id as int].cantidad < cantidad {
            Err(SistemaError::StockInsuficiente)
        } else if self.ordenes@.len() == u32::MAX {
            Err(SistemaError::ProductosVacios)
        } else {
            Ok(self.ordenes@.len() as u32)
        }
    }

    /// Genera una nueva orden de compra: valida comprador, cantidad, producto
    /// y stock, descuenta el stock y guarda la orden pendiente.
    pub fn crear_orden(&mut self, caller: AccountId, producto_id: u32, cantidad: u32) -> (r: Result<
        u32,
        SistemaError,
    >)
        requires
            old(self).bien_formado(),
        ensures
            final(self).bien_formado(),
            r == old(self).resultado_crear_orden(caller, producto_id, cantidad),
            r is Err ==> *final(self) == *old(self),
            r is Ok ==> final(self).ordenes@ == old(self).ordenes@.push(
                Orden::inicial(
                    old(self).ordenes@.len() as u32,
                    caller,
                    old(self).productos@[producto_id as int].vendedor,
                    producto_id,
                    cantidad,
                ),
            ),
            r is Ok ==> final(self).productos@ == old(self).productos@.update(
                producto_id as int,
                Producto {
                    cantidad: (old(self).productos@[producto_id as int].cantidad - cantidad) as u32,
                    ..old(self).productos@[producto_id as int]
                },
            ),
            final(self).usuarios@ == old(self).usuarios@,
            final(self).eventos@ == old(self).eventos@,
            forall|p: int|
                0 <= p < old(self).productos@.len() ==> #[trigger] final(self).stock_mas_demanda(p)
                    == old(self).stock_mas_demanda(p),
    {
        let usuario = match self.obtener_usuario(caller) {
            Some(u) => u,
            None => { return Err(SistemaError::UsuarioNoRegistrado) },
        };
        match usuario.rol {
            RolUsuario::Comprador | RolUsuario::Ambos => {},
            _ => { return Err(SistemaError::NoEsRolCorrecto) },
        }
        if cantidad == 0 {
            return Err(SistemaError::CantidadInsuficiente);
        }
        if producto_id as usize >= self.productos.len() {
            return Err(SistemaError::ProductosVacios);
        }
        let indice = producto_id as usize;
        if self.productos[indice].cantidad < cantidad {
            return Err(SistemaError::StockInsuficiente);
        }
        if self.ordenes.len() >= u32::MAX as usize {
            return Err(SistemaError::ProductosVacios);
        }
        let vendedor_addr = self.productos[indice].vendedor;
        let mut producto = self.productos[indice].clone();
        producto.cantidad = producto.cantidad - cantidad;
        self.productos[indice] = producto;
        let id = self.ordenes.len() as u32;
        let nueva = Orden::nueva(id, caller, vendedor_addr, producto_id, cantidad);
        self.ordenes.push(nueva);
        proof {
            let ghost viejo = *old(self);
            let ghost m = *self;
            let ghost pid = producto_id as int;
            assert forall|p: int|
                0 <= p < viejo.productos@.len() implies #[trigger] m.stock_mas_demanda(p)
                == viejo.stock_mas_demanda(p) by {
                lemma_demanda_push(viejo.ordenes@, nueva, p);
                if p != pid {
                    assert(m.productos@[p] == viejo.productos@[p]);
                    assert(aporte_activo(nueva, p) == 0);
                } else {
                    assert(aporte_activo(nueva, p) == cantidad);
                }
            }
            assert forall|p: int|
                0 <= p < m.productos@.len() implies #[trigger] m.stock_mas_demanda(p)
                <= u32::MAX by {
                assert(viejo.stock_mas_demanda(p) <= u32::MAX);
            }
            assert forall|i: int|
                0 <= i < m.productos@.len() implies (#[trigger] m.productos@[i]).id == i by {
                if i != pid {
                    assert(m.productos@[i] == viejo.productos@[i]);
                }
            }
        }
        Ok(id)
    }

    /// Resultado de que `caller` lleve la orden `orden_id` al estado
    /// `nuevo_estado` (`Enviada` o `Recibida`).
    pub open spec fn resultado_marcar(
        self,
        caller: AccountId,
        orden_id: u32,
        nuevo_estado: EstadoOrden,
    ) -> Result<(), SistemaError> {
        if !self.tiene_usuario(caller) {
            Err(SistemaError::UsuarioNoRegistrado)
        } else if orden_id >= self.ordenes@.len() {
            Err(SistemaError::OrdenNoExiste)
        } else {
            let o = self.ordenes@[orden_id as int];
            if nuevo_estado == EstadoOrden::Enviada && caller != o.vendedor {
                Err(SistemaError::NoEsRolCorrecto)
            } else if nuevo_estado == EstadoOrden::Recibida && caller != o.comprador {
                Err(SistemaError::NoEsRolCorrecto)
            } else if o.estado == EstadoOrden::Pendiente && nuevo_estado == EstadoOrden::Enviada {
                Ok(())
            } else if o.estado == EstadoOrden::Enviada && nuevo_estado == EstadoOrden::Recibida {
                Ok(())
            } else {
                Err(SistemaError::EstadoInvalido)
            }
        }
    }

    /// Aplica a la orden la transición de estado pedida por `caller`.
    fn actualizar_estado_orden(
        &mut self,
        caller: AccountId,
        orden_id: u32,
        nuevo_estado: EstadoOrden,
    ) -> (r: Result<(), SistemaError>)
        requires
            old(self).bien_formado(),
            nuevo_estado == EstadoOrden::Enviada || nuevo_estado == EstadoOrden::Recibida,
        ensures
            final(self).bien_formado(),
            r == old(self).resultado_marcar(caller, orden_id, nuevo_estado),
            r is Err ==> *final(self) == *old(self),
            r is Ok ==> final(self).ordenes@ == old(self).ordenes@.update(
                orden_id as int,
                Orden { estado: nuevo_estado, ..old(self).ordenes@[orden_id as int] },
            ),
            final(self).usuarios@ == old(self).usuarios@,
            final(self).productos@ == old(self).productos@,
            final(self).eventos@ == old(self).eventos@,
            forall|p: int|
                0 <= p < old(self).productos@.len() ==> #[trigger] final(self).stock_mas_demanda(p)
                    == old(self).stock_mas_demanda(p),
    {
        if !self.esta_registrado(caller) {
            return Err(SistemaError::UsuarioNoRegistrado);
        }
        if orden_id as usize >= self.ordenes.len() {
            return Err(SistemaError::OrdenNoExiste);
        }
        let indice = orden_id as usize;
        let orden = self.ordenes[indice];
        match nuevo_estado {
            EstadoOrden::Enviada => {
                if caller != orden.vendedor {
                    return Err(SistemaError::NoEsRolCorrecto);
                }
            },
            EstadoOrden::Recibida => {
                if caller != orden.comprador {
                    return Err(SistemaError::NoEsRolCorrecto);
                }
            },
            _ => {},
        }
        let transicion_valida = match (orden.estado, nuevo_estado) {
            (EstadoOrden::Pendiente, EstadoOrden::Enviada) => true,
            (EstadoOrden::Enviada, EstadoOrden::Recibida) => true,
            _ => false,
        };
        if !transicion_valida {
            return Err(SistemaError::EstadoInvalido);
        }
        let mut actualizada = orden;
        actualizada.estado = nuevo_estado;
        self.ordenes[indice] = actualizada;
        proof {
            let ghost viejo = *old(self);
            let ghost m = *self;
            assert forall|p: int|
                0 <= p < viejo.productos@.len() implies #[trigger] m.stock_mas_demanda(p)
                == viejo.stock_mas_demanda(p) by {
                lemma_demanda_update(viejo.ordenes@, indice as int, actualizada, p);
                assert(aporte_activo(actualizada, p) == aporte_activo(orden, p));
            }
            assert forall|p: int|
                0 <= p < m.productos@.len() implies #[trigger] m.stock_mas_demanda(p)
                <= u32::MAX by {
                assert(viejo.stock_mas_demanda(p) <= u32::MAX);
            }
            assert forall|i: int|
                0 <= i < m.ordenes@.len() implies {
                    let o = #[trigger] m.ordenes@[i];
                    o.id == i && o.producto_id < m.productos@.len() && o.cantidad >= 1
                } by {
                if i != indice as int {
                    assert(m.ordenes@[i] == viejo.ordenes@[i]);
                }
            }
        }
        Ok(())
    }

    /// Cambia el estado de una orden a `Enviada`; sólo puede hacerlo el
    /// vendedor de la orden, y sólo desde `Pendiente`.
    pub fn marcar_orden_como_enviada(&mut self, caller: AccountId, orden_id: u32) -> (r: Result<
        (),
        SistemaError,
    >)
        requires
            old(self).bien_formado(),
        ensures
            final(self).bien_formado(),
            r == old(self).resultado_marcar(caller, orden_id, EstadoOrden::Enviada),
            r is Err ==> *final(self) == *old(self),
            r is Ok ==> final(self).ordenes@ == old(self).ordenes@.update(
                orden_id as int,
                Orden { estado: EstadoOrden::Enviada, ..old(self).ordenes@[orden_id as int] },
            ),
            final(self).usuarios@ == old(self).usuarios@,
            final(self).productos@ == old(self).productos@,
            final(self).eventos@ == old(self).eventos@,
            forall|p: int|
                0 <= p < old(self).productos@.len() ==> #[trigger] final(self).stock_mas_demanda(p)
                    == old(self).stock_mas_demanda(p),
    {
        self.actualizar_estado_orden(caller, orden_id, EstadoOrden::Enviada)
    }

    /// Cambia el estado de una orden a `Recibida`; sólo puede hacerlo el
    /// comprador de la orden, y sólo desde `Enviada`.
    pub fn marcar_como_recibida(&mut self, caller: AccountId, orden_id: u32) -> (r: Result<
        (),
        SistemaError,
    >)
        requires
            old(self).bien_formado(),
        ensures
            final(self).bien_formado(),
            r == old(self).resultado_marcar(caller, orden_id, EstadoOrden::Recibida),
            r is Err ==> *final(self) == *old(self),
            r is Ok ==> final(self).ordenes@ == old(self).ordenes@.update(
                orden_id as int,
                Orden { estado: EstadoOrden::Recibida, ..old(self).ordenes@[orden_id as int] },
            ),
            final(self).usuarios@ == old(self).usuarios@,
            final(self).productos@ == old(self).productos@,
            final(self).eventos@ == old(self).eventos@,
            forall|p: int|
                0 <= p < old(self).productos@.len() ==> #[trigger] final(self).stock_mas_demanda(p)
                    == old(self).stock_mas_demanda(p),
    {
        self.actualizar_estado_orden(caller, orden_id, EstadoOrden::Recibida)
    }

    /// Resultado de que `caller` califique al vendedor de la orden.
    pub open spec fn resultado_calificar_vendedor(
        self,
        caller: AccountId,
        orden_id: u32,
        calificacion: u32,
    ) -> Result<(), SistemaError> {
        if !(1 <= calificacion <= 5) {
            Err(SistemaError::CalificacionInvalida)
        } else if orden_id >= self.ordenes@.len() {
            Err(SistemaError::OrdenNoExiste)
        } else {
            let o = self.ordenes@[orden_id as int];
            if o.comprador != caller {
                Err(SistemaError::NoEsRolCorrecto)
            } else if o.estado != EstadoOrden::Recibida {
                Err(SistemaError::EstadoInvalido)
            } else if o.comprador_califico {
                Err(SistemaError::YaCalificado)
            } else {
                Ok(())
            }
        }
    }

    /// Permite al comprador calificar su experiencia con el vendedor: marca
    /// la calificación como emitida, suma saturadamente la calificación a la
    /// reputación como vendedor del contrario si está registrado, y deja la
    /// notificación en la bitácora.
    pub fn calificar_vendedor(&mut self, caller: AccountId, orden_id: u32, calificacion: u32) -> (r:
        Result<(), SistemaError>)
        requires
            old(self).bien_formado(),
        ensures
            final(self).bien_formado(),
            r == old(self).resultado_calificar_vendedor(caller, orden_id, calificacion),
            r is Err ==> *final(self) == *old(self),
            r is Ok ==> final(self).ordenes@ == old(self).ordenes@.update(
                orden_id as int,
                Orden { comprador_califico: true, ..old(self).ordenes@[orden_id as int] },
            ),
            r is Ok ==> {
                let vendedor = old(self).ordenes@[orden_id as int].vendedor;
                if old(self).tiene_usuario(vendedor) {
                    final(self).usuarios@ == old(self).usuarios@.update(
                        old(self).indice_usuario(vendedor),
                        Usuario {
                            reputacion_como_vendedor: suma_saturada(
                                old(self).usuario_de(vendedor).reputacion_como_vendedor,
                                calificacion,
                            ),
                            ..old(self).usuario_de(vendedor)
                        },
                    )
                } else {
                    final(self).usuarios@ == old(self).usuarios@
                }
            },
            r is Ok ==> final(self).eventos@ == old(self).eventos@.push(
                Evento::CompradorCalifico(
                    CompradorCalifico {
                        orden_id,
                        comprador: caller,
                        vendedor: old(self).ordenes@[orden_id as int].vendedor,
                        calificacion,
                    },
                ),
            ),
            final(self).productos@ == old(self).productos@,
            forall|p: int|
                0 <= p < old(self).productos@.len() ==> #[trigger] final(self).stock_mas_demanda(p)
                    == old(self).stock_mas_demanda(p),
    {
        if calificacion < 1 || calificacion > 5 {
            return Err(SistemaError::CalificacionInvalida);
        }
        if orden_id as usize >= self.ordenes.len() {
            return Err(SistemaError::OrdenNoExiste);
        }
        let indice = orden_id as usize;
        let orden = self.ordenes[indice];
        if orden.comprador != caller {
            return Err(SistemaError::NoEsRolCorrecto);
        }
        match orden.estado {
            EstadoOrden::Recibida => {},
            _ => { return Err(SistemaError::EstadoInvalido) },
        }
        if orden.comprador_califico {
            return Err(SistemaError::YaCalificado);
        }
        let mut calificada = orden;
        calificada.comprador_califico = true;
        self.ordenes[indice] = calificada;
        let vendedor_addr = orden.vendedor;
        match self.buscar_usuario(vendedor_addr) {
            Some(i) => {
                proof {
                    let ghost m = *self;
                    let ghost j = m.indice_usuario(vendedor_addr);
                    assert(m.usuarios@[i as int].direccion == vendedor_addr);
                    assert(m.usuarios@[j].direccion == vendedor_addr);
                    assert(j == i) by {
                        if j < i {
                            assert(false);
                        } else if i < j {
                            assert(false);
                        }
                    }
                }
                let mut vendedor = self.usuarios[i];
                vendedor.reputacion_como_vendedor = vendedor.reputacion_como_vendedor
                    .saturating_add(calificacion);
                self.usuarios[i] = vendedor;
            },
            None => {},
        }
        self.eventos.push(
            Evento::CompradorCalifico(
                CompradorCalifico { orden_id, comprador: caller, vendedor: vendedor_addr, calificacion },
            ),
        );
        proof {
            let ghost viejo = *old(self);
            let ghost m = *self;
            assert forall|i: int, j: int|
                0 <= i < j < m.usuarios@.len() implies m.usuarios@[i].direccion
                != m.usuarios@[j].direccion by {
                assert(viejo.usuarios@[i].direccion != viejo.usuarios@[j].direccion);
                assert(m.usuarios@[i].direccion == viejo.usuarios@[i].direccion);
                assert(m.usuarios@[j].direccion == viejo.usuarios@[j].direccion);
            }
            assert forall|p: int|
                0 <= p < viejo.productos@.len() implies #[trigger] m.stock_mas_demanda(p)
                == viejo.stock_mas_demanda(p) by {
                lemma_demanda_update(viejo.ordenes@, indice as int, calificada, p);
                assert(aporte_activo(calificada, p) == aporte_activo(orden, p));
            }
            assert forall|p: int|
                0 <= p < m.productos@.len() implies #[trigger] m.stock_mas_demanda(p)
                <= u32::MAX by {
                assert(viejo.stock_mas_demanda(p) <= u32::MAX);
            }
            assert forall|i: int|
                0 <= i < m.ordenes@.len() implies {
                    let o = #[trigger] m.ordenes@[i];
                    o.id == i && o.producto_id < m.productos@.len() && o.cantidad >= 1
                } by {
                if i != indice as int {
                    assert(m.ordenes@[i] == viejo.ordenes@[i]);
                }
            }
        }
        Ok(())
    }

    /// Resultado de que `caller` califique al comprador de la orden.
    pub open spec fn resultado_calificar_comprador(
        self,
        caller: AccountId,
        orden_id: u32,
        calificacion: u32,
    ) -> Result<(), SistemaError> {
        if !(1 <= calificacion <= 5) {
            Err(SistemaError::CalificacionInvalida)
        } else if orden_id >= self.ordenes@.len() {
            Err(SistemaError::OrdenNoExiste)
        } else {
            let o = self.ordenes@[orden_id as int];
            if o.vendedor != caller {
                Err(SistemaError::NoEsRolCorrecto)
            } else if o.estado != EstadoOrden::Recibida {
                Err(SistemaError::EstadoInvalido)
            } else if o.vendedor_califico {
                Err(SistemaError::YaCalificado)
            } else {
                Ok(())
            }
        }
    }

    /// Permite al vendedor calificar al comprador: simétrico de
    /// `calificar_vendedor`, sobre la bandera y la reputación del comprador.
    pub fn calificar_comprador(&mut self, caller: AccountId, orden_id: u32, calificacion: u32) -> (r:
        Result<(), SistemaError>)
        requires
            old(self).bien_formado(),
        ensures
            final(self).bien_formado(),
            r == old(self).resultado_calificar_comprador(caller, orden_id, calificacion),
            r is Err ==> *final(self) == *old(self),
            r is Ok ==> final(self).ordenes@ == old(self).ordenes@.update(
                orden_id as int,
                Orden { vendedor_califico: true, ..old(self).ordenes@[orden_id as int] },
            ),
            r is Ok ==> {
                let comprador = old(self).ordenes@[orden_id as int].comprador;
                if old(self).tiene_usuario(comprador) {
                    final(self).usuarios@ == old(self).usuarios@.update(
                        old(self).indice_usuario(comprador),
                        Usuario {
                            reputacion_como_comprador: suma_saturada(
                                old(self).usuario_de(comprador).reputacion_como_comprador,
                                calificacion,
                            ),
                            ..old(self).usuario_de(comprador)
                        },
                    )
                } else {
                    final(self).usuarios@ == old(self).usuarios@
                }
            },
            r is Ok ==> final(self).eventos@ == old(self).eventos@.push(
                Evento::VendedorCalifico(
                    VendedorCalifico {
                        orden_id,
                        vendedor: caller,
                        comprador: old(self).ordenes@[orden_id as int].comprador,
                        calificacion,
                    },
                ),
            ),
            final(self).productos@ == old(self).productos@,
            forall|p: int|
                0 <= p < old(self).productos@.len() ==> #[trigger] final(self).stock_mas_demanda(p)
                    == old(self).stock_mas_demanda(p),
    {
        if calificacion < 1 || calificacion > 5 {
            return Err(SistemaError::CalificacionInvalida);
        }
        if orden_id as usize >= self.ordenes.len() {
            return Err(SistemaError::OrdenNoExiste);
        }
        let indice = orden_id as usize;
        let orden = self.ordenes[indice];
        if orden.vendedor != caller {
            return Err(SistemaError::NoEsRolCorrecto);
        }
        match orden.estado {
            EstadoOrden::Recibida => {},
            _ => { return Err(SistemaError::EstadoInvalido) },
        }
        if orden.vendedor_califico {
            return Err(SistemaError::YaCalificado);
        }
        let mut calificada = orden;
        calificada.vendedor_califico = true;
        self.ordenes[indice] = calificada;
        let comprador_addr = orden.comprador;
        match self.buscar_usuario(comprador_addr) {
            Some(i) => {
                proof {
                    let ghost m = *self;
                    let ghost j = m.indice_usuario(comprador_addr);
                    assert(m.usuarios@[i as int].direccion == comprador_addr);
                    assert(m.usuarios@[j].direccion == comprador_addr);
                    assert(j == i) by {
                        if j < i {
                            assert(false);
                        } else if i < j {
                            assert(false);
                        }
                    }
                }
                let mut comprador = self.usuarios[i];
                comprador.reputacion_como_comprador = comprador.reputacion_como_comprador
                    .saturating_add(calificacion);
                self.usuarios[i] = comprador;
            },
            None => {},
        }
        self.eventos.push(
            Evento::VendedorCalifico(
                VendedorCalifico { orden_id, vendedor: caller, comprador: comprador_addr, calificacion },
            ),
        );
        proof {
            let ghost viejo = *old(self);
            let ghost m = *self;
            assert forall|i: int, j: int|
                0 <= i < j < m.usuarios@.len() implies m.usuarios@[i].direccion
                != m.usuarios@[j].direccion by {
                assert(viejo.usuarios@[i].direccion != viejo.usuarios@[j].direccion);
                assert(m.usuarios@[i].direccion == viejo.usuarios@[i].direccion);
                assert(m.usuarios@[j].direccion == viejo.usuarios@[j].direccion);
            }
            assert forall|p: int|
                0 <= p < viejo.productos@.len() implies #[trigger] m.stock_mas_demanda(p)
                == viejo.stock_mas_demanda(p) by {
                lemma_demanda_update(viejo.ordenes@, indice as int, calificada, p);
                assert(aporte_activo(calificada, p) == aporte_activo(orden, p));
            }
            assert forall|p: int|
                0 <= p < m.productos@.len() implies #[trigger] m.stock_mas_demanda(p)
                <= u32::MAX by {
                assert(viejo.stock_mas_demanda(p) <= u32::MAX);
            }
            assert forall|i: int|
                0 <= i < m.ordenes@.len() implies {
                    let o = #[trigger] m.ordenes@[i];
                    o.id == i && o.producto_id < m.productos@.len() && o.cantidad >= 1
                } by {
                if i != indice as int {
                    assert(m.ordenes@[i] == viejo.ordenes@[i]);
                }
            }
        }
        Ok(())
    }

    /// La orden tras la solicitud de cancelación de `caller`: si llama el
    /// comprador marca su solicitud; si no (y es el vendedor), su aceptación.
    pub open spec fn orden_tras_solicitud(o: Orden, caller: AccountId) -> Orden {
        if caller == o.comprador {
            Orden { comprador_solicita_cancelacion: true, ..o }
        } else {
            Orden { vendedor_acepta_cancelacion: true, ..o }
        }
    }

    /// Ambas partes de la orden consintieron la cancelación.
    pub open spec fn ambos_consienten(o: Orden) -> bool {
        o.comprador_solicita_cancelacion && o.vendedor_acepta_cancelacion
    }

    /// Resultado de que `caller` solicite la cancelación de la orden.
    pub open spec fn resultado_cancelacion(self, caller: AccountId, orden_id: u32) -> Result<
        (),
        SistemaError,
    > {
        if !self.tiene_usuario(caller) {
            Err(SistemaError::UsuarioNoRegistrado)
        } else if orden_id >= self.ordenes@.len() {
            Err(SistemaError::OrdenNoExiste)
        } else {
            let o = self.ordenes@[orden_id as int];
            if o.estado != EstadoOrden::Pendiente {
                Err(SistemaError::EstadoInvalido)
            } else if caller != o.comprador && caller != o.vendedor {
                Err(SistemaError::NoEsRolCorrecto)
            } else {
                Ok(())
            }
        }
    }

    /// Inicia o completa la cancelación por consentimiento mutuo de una orden
    /// pendiente. Una sola solicitud deja la orden `Pendiente` y el stock
    /// intacto; cuando ambas partes consintieron, la orden pasa a `Cancelada`
    /// y el producto recupera exactamente la cantidad comprometida. Repetir
    /// la solicitud es idempotente, no un error.
    pub fn solicitar_cancelacion_orden(&mut self, caller: AccountId, orden_id: u32) -> (r: Result<
        (),
        SistemaError,
    >)
        requires
            old(self).bien_formado(),
        ensures
            final(self).bien_formado(),
            r == old(self).resultado_cancelacion(caller, orden_id),
            r is Err ==> *final(self) == *old(self),
            r is Ok ==> {
                let o = old(self).ordenes@[orden_id as int];
                let solicitada = Self::orden_tras_solicitud(o, caller);
                if Self::ambos_consienten(solicitada) {
                    final(self).ordenes@ == old(self).ordenes@.update(
                        orden_id as int,
                        Orden { estado: EstadoOrden::Cancelada, ..solicitada },
                    ) && final(self).productos@ == old(self).productos@.update(
                        o.producto_id as int,
                        Producto {
                            cantidad: (old(self).productos@[o.producto_id as int].cantidad
                                + o.cantidad) as u32,
                            ..old(self).productos@[o.producto_id as int]
                        },
                    )
                } else {
                    final(self).ordenes@ == old(self).ordenes@.update(orden_id as int, solicitada)
                        && final(self).productos@ == old(self).productos@
                }
            },
            r is Ok && !Self::ambos_consienten(
                Self::orden_tras_solicitud(old(self).ordenes@[orden_id as int], caller),
            ) ==> final(self).ordenes@[orden_id as int].estado == EstadoOrden::Pendiente,
            final(self).usuarios@ == old(self).usuarios@,
            final(self).eventos@ == old(self).eventos@,
            forall|p: int|
                0 <= p < old(self).productos@.len() ==> #[trigger] final(self).stock_mas_demanda(p)
                    == old(self).stock_mas_demanda(p),
    {
        if !self.esta_registrado(caller) {
            return Err(SistemaError::UsuarioNoRegistrado);
        }
        if orden_id as usize >= self.ordenes.len() {
            return Err(SistemaError::OrdenNoExiste);
        }
        let indice = orden_id as usize;
        let orden = self.ordenes[indice];
        match orden.estado {
            EstadoOrden::Pendiente => {},
            _ => { return Err(SistemaError::EstadoInvalido) },
        }
        let mut solicitada = orden;
        if caller == orden.comprador {
            solicitada.comprador_solicita_cancelacion = true;
        } else if caller == orden.vendedor {
            solicitada.vendedor_acepta_cancelacion = true;
        } else {
            return Err(SistemaError::NoEsRolCorrecto);
        }
        if solicitada.comprador_solicita_cancelacion && solicitada.vendedor_acepta_cancelacion {
            let mut cancelada = solicitada;
            cancelada.estado = EstadoOrden::Cancelada;
            self.ordenes[indice] = cancelada;
            let producto_indice = orden.producto_id as usize;
            proof {
                let ghost viejo = *old(self);
                lemma_demanda_cubre_orden(viejo.ordenes@, indice as int, orden.producto_id as int);
                assert(viejo.stock_mas_demanda(orden.producto_id as int) <= u32::MAX);
            }
            let mut producto = self.productos[producto_indice].clone();
            producto.cantidad = producto.cantidad.saturating_add(orden.cantidad);
            self.productos[producto_indice] = producto;
            proof {
                let ghost viejo = *old(self);
                let ghost m = *self;
                let ghost pid = orden.producto_id as int;
                assert forall|p: int|
                    0 <= p < viejo.productos@.len() implies #[trigger] m.stock_mas_demanda(p)
                    == viejo.stock_mas_demanda(p) by {
                    lemma_demanda_update(viejo.ordenes@, indice as int, cancelada, p);
                    if p != pid {
                        assert(m.productos@[p] == viejo.productos@[p]);
                        assert(aporte_activo(cancelada, p) == aporte_activo(orden, p));
                    } else {
                        assert(aporte_activo(orden, p) == orden.cantidad);
                        assert(aporte_activo(cancelada, p) == 0);
                    }
                }
                assert forall|p: int|
                    0 <= p < m.productos@.len() implies #[trigger] m.stock_mas_demanda(p)
                    <= u32::MAX by {
                    assert(viejo.stock_mas_demanda(p) <= u32::MAX);
                }
                assert forall|i: int|
                    0 <= i < m.productos@.len() implies (#[trigger] m.productos@[i]).id == i by {
                    if i != pid {
                        assert(m.productos@[i] == viejo.productos@[i]);
                    }
                }
                assert forall|i: int|
                    0 <= i < m.ordenes@.len() implies {
                        let o = #[trigger] m.ordenes@[i];
                        o.id == i && o.producto_id < m.productos@.len() && o.cantidad >= 1
                    } by {
                    if i != indice as int {
                        assert(m.ordenes@[i] == viejo.ordenes@[i]);
                    }
                }
            }
        } else {
            self.ordenes[indice] = solicitada;
            proof {
                let ghost viejo = *old(self);
                let ghost m = *self;
                assert forall|p: int|
                    0 <= p < viejo.productos@.len() implies #[trigger] m.stock_mas_demanda(p)
                    == viejo.stock_mas_demanda(p) by {
                    lemma_demanda_update(viejo.ordenes@, indice as int, solicitada, p);
                    assert(aporte_activo(solicitada, p) == aporte_activo(orden, p));
                }
                assert forall|p: int|
                    0 <= p < m.productos@.len() implies #[trigger] m.stock_mas_demanda(p)
                    <= u32::MAX by {
                    assert(viejo.stock_mas_demanda(p) <= u32::MAX);
                }
                assert forall|i: int|
                    0 <= i < m.ordenes@.len() implies {
                        let o = #[trigger] m.ordenes@[i];
                        o.id == i && o.producto_id < m.productos@.len() && o.cantidad >= 1
                    } by {
                    if i != indice as int {
                        assert(m.ordenes@[i] == viejo.ordenes@[i]);
                    }
                }
            }
        }
        Ok(())
    }

    /// Copia de todos los productos publicados, por identificador creciente.
    pub fn obtener_todos_los_productos(&self) -> (r: Vec<Producto>)
        ensures
            r@ == self.productos@,
    {
        let mut productos: Vec<Producto> = Vec::new();
        let mut i: usize = 0;
        while i < self.productos.len()
            invariant
                i <= self.productos@.len(),
                productos@ == self.productos@.take(i as int),
            decreases self.productos@.len() - i,
        {
            proof {
                assert(self.productos@.take(i + 1) =~= self.productos@.take(i as int).push(
                    self.productos@[i as int],
                ));
            }
            productos.push(self.productos[i].clone());
            i += 1;
        }
        proof {
            assert(self.productos@.take(self.productos@.len() as int) =~= self.productos@);
        }
        productos
    }

    /// Copia de todas las órdenes, por identificador creciente.
    pub fn obtener_todas_las_ordenes(&self) -> (r: Vec<Orden>)
        ensures
            r@ == self.ordenes@,
    {
        let mut ordenes: Vec<Orden> = Vec::new();
        let mut i: usize = 0;
        while i < self.ordenes.len()
            invariant
                i <= self.ordenes@.len(),
                ordenes@ == self.ordenes@.take(i as int),
            decreases self.ordenes@.len() - i,
        {
            proof {
                assert(self.ordenes@.take(i + 1) =~= self.ordenes@.take(i as int).push(
                    self.ordenes@[i as int],
                ));
            }
            ordenes.push(self.ordenes[i]);
            i += 1;
        }
        proof {
            assert(self.ordenes@.take(self.ordenes@.len() as int) =~= self.ordenes@);
        }
        ordenes
    }

    /// Copia de todos los usuarios, en orden de registro.
    pub fn obtener_todos_los_usuarios(&self) -> (r: Vec<Usuario>)
        ensures
            r@ == self.usuarios@,
    {
        let mut usuarios: Vec<Usuario> = Vec::new();
        let mut i: usize = 0;
        while i < self.usuarios.len()
            invariant
                i <= self.usuarios@.len(),
                usuarios@ == self.usuarios@.take(i as int),
            decreases self.usuarios@.len() - i,
        {
            proof {
                assert(self.usuarios@.take(i + 1) =~= self.usuarios@.take(i as int).push(
                    self.usuarios@[i as int],
                ));
            }
            usuarios.push(self.usuarios[i]);
            i += 1;
        }
        proof {
            assert(self.usuarios@.take(self.usuarios@.len() as int) =~= self.usuarios@);
        }
        usuarios
    }

    /// Copia de la bitácora de notificaciones, en orden de emisión.
    pub fn obtener_eventos(&self) -> (r: Vec<Evento>)
        ensures
            r@ == self.eventos@,
    {
        let mut eventos: Vec<Evento> = Vec::new();
        let mut i: usize = 0;
        while i < self.eventos.len()
            invariant
                i <= self.eventos@.len(),
                eventos@ == self.eventos@.take(i as int),
            decreases self.eventos@.len() - i,
        {
            proof {
                assert(self.eventos@.take(i + 1) =~= self.eventos@.take(i as int).push(
                    self.eventos@[i as int],
                ));
            }
            eventos.push(self.eventos[i]);
            i += 1;
        }
        proof {
            assert(self.eventos@.take(self.eventos@.len() as int) =~= self.eventos@);
        }
        eventos
    }
}

/// Tras un registro exitoso la dirección queda registrada, de modo que un
/// segundo registro de la misma dirección devuelve `UsuarioExistente`.
pub proof fn lemma_registro_repetido(
    antes: Marketplace,
    despues: Marketplace,
    direccion: AccountId,
    rol: RolUsuario,
)
    requires
        !antes.tiene_usuario(direccion),
        despues.usuarios@ == antes.usuarios@.push(
            Usuario { direccion, rol, reputacion_como_comprador: 0, reputacion_como_vendedor: 0 },
        ),
    ensures
        despues.resultado_registrar(direccion) == Err::<(), SistemaError>(
            SistemaError::UsuarioExistente,
        ),
{
    assert(despues.usuarios@[antes.usuarios@.len() as int].direccion == direccion);
    assert(despues.tiene_usuario(direccion));
}

/// Las únicas transiciones directas de rol: Comprador y Vendedor se
/// intercambian entre sí, Ambos puede pasar a cualquiera de los otros dos, y
/// ninguna transición lleva a Ambos ni repite el rol actual.
pub proof fn lemma_transiciones_rol()
    ensures
        transicion_rol_valida(RolUsuario::Comprador, RolUsuario::Vendedor),
        transicion_rol_valida(RolUsuario::Vendedor, RolUsuario::Comprador),
        transicion_rol_valida(RolUsuario::Ambos, RolUsuario::Comprador),
        transicion_rol_valida(RolUsuario::Ambos, RolUsuario::Vendedor),
        !transicion_rol_valida(RolUsuario::Comprador, RolUsuario::Ambos),
        !transicion_rol_valida(RolUsuario::Vendedor, RolUsuario::Ambos),
        forall|actual: RolUsuario, nuevo: RolUsuario|
            #[trigger] transicion_rol_valida(actual, nuevo) ==> nuevo != RolUsuario::Ambos && nuevo
                != actual,
{
}

/// Recibir antes de enviar siempre falla `EstadoInvalido`, y marcar como
/// enviada sin ser el vendedor de la orden siempre falla `NoEsRolCorrecto`.
pub proof fn lemma_marcar_fuera_de_orden(m: Marketplace, caller: AccountId, orden_id: u32)
    requires
        m.tiene_usuario(caller),
        orden_id < m.ordenes@.len(),
    ensures
        m.ordenes@[orden_id as int].estado == EstadoOrden::Pendiente && caller == m.ordenes@[orden_id as int].comprador
            ==> m.resultado_marcar(caller, orden_id, EstadoOrden::Recibida) == Err::<
            (),
            SistemaError,
        >(SistemaError::EstadoInvalido),
        caller != m.ordenes@[orden_id as int].vendedor ==> m.resultado_marcar(
            caller,
            orden_id,
            EstadoOrden::Enviada,
        ) == Err::<(), SistemaError>(SistemaError::NoEsRolCorrecto),
{
}

/// Una calificación fuera de 1..=5 siempre falla `CalificacionInvalida`, en
/// cualquier estado y para cualquier orden.
pub proof fn lemma_calificacion_invalida(
    m: Marketplace,
    caller: AccountId,
    orden_id: u32,
    calificacion: u32,
)
    requires
        !(1 <= calificacion <= 5),
    ensures
        m.resultado_calificar_vendedor(caller, orden_id, calificacion) == Err::<(), SistemaError>(
            SistemaError::CalificacionInvalida,
        ),
        m.resultado_calificar_comprador(caller, orden_id, calificacion) == Err::<(), SistemaError>(
            SistemaError::CalificacionInvalida,
        ),
{
}

/// Cada dirección califica a lo sumo una vez por orden: tras la calificación
/// exitosa del vendedor, cualquier segundo intento devuelve `YaCalificado`.
pub proof fn lemma_calificacion_unica_vendedor(
    antes: Marketplace,
    despues: Marketplace,
    caller: AccountId,
    orden_id: u32,
    calificacion: u32,
    repite: u32,
)
    requires
        antes.resultado_calificar_vendedor(caller, orden_id, calificacion) is Ok,
        despues.ordenes@ == antes.ordenes@.update(
            orden_id as int,
            Orden { comprador_califico: true, ..antes.ordenes@[orden_id as int] },
        ),
        1 <= repite <= 5,
    ensures
        despues.resultado_calificar_vendedor(caller, orden_id, repite) == Err::<(), SistemaError>(
            SistemaError::YaCalificado,
        ),
{
}

/// Cada dirección califica a lo sumo una vez por orden: tras la calificación
/// exitosa del comprador, cualquier segundo intento devuelve `YaCalificado`.
pub proof fn lemma_calificacion_unica_comprador(
    antes: Marketplace,
    despues: Marketplace,
    caller: AccountId,
    orden_id: u32,
    calificacion: u32,
    repite: u32,
)
    requires
        antes.resultado_calificar_comprador(caller, orden_id, calificacion) is Ok,
        despues.ordenes@ == antes.ordenes@.update(
            orden_id as int,
            Orden { vendedor_califico: true, ..antes.ordenes@[orden_id as int] },
        ),
        1 <= repite <= 5,
    ensures
        despues.resultado_calificar_comprador(caller, orden_id, repite) == Err::<(), SistemaError>(
            SistemaError::YaCalificado,
        ),
{
}

/// Con ambas banderas bajas y las dos partes distintas, la solicitud de una
/// sola parte no alcanza el consentimiento mutuo; la de la otra parte, sobre
/// la orden ya marcada, sí lo alcanza.
pub proof fn lemma_consentimiento_mutuo(o: Orden)
    requires
        !o.comprador_solicita_cancelacion,
        !o.vendedor_acepta_cancelacion,
        o.comprador != o.vendedor,
    ensures
        !Marketplace::ambos_consienten(Marketplace::orden_tras_solicitud(o, o.comprador)),
        !Marketplace::ambos_consienten(Marketplace::orden_tras_solicitud(o, o.vendedor)),
        Marketplace::ambos_consienten(
            Marketplace::orden_tras_solicitud(
                Marketplace::orden_tras_solicitud(o, o.comprador),
                o.vendedor,
            ),
        ),
        Marketplace::ambos_consienten(
            Marketplace::orden_tras_solicitud(
                Marketplace::orden_tras_solicitud(o, o.vendedor),
                o.comprador,
            ),
        ),
{
}

} // verus!
