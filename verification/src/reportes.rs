//! Capa de reportes: consultas de sólo lectura sobre instantáneas completas
//! de usuarios, productos y órdenes.
//!
//! Las instantáneas llegan como argumentos a cada consulta: quien conecte la
//! vista con un marketplace concreto obtiene primero la instantánea por el
//! puerto de lectura que tenga y la entrega aquí. El ordenamiento es estable:
//! a igual reputación o volumen se conserva el orden de la instantánea.

use crate::mercado::suma_saturada;
use crate::mercado::Marketplace;
use crate::tipos::AccountId;
use crate::tipos::EstadoOrden;
use crate::tipos::Orden;
use crate::tipos::Producto;
use crate::tipos::ReporteProductoVendido;
use crate::tipos::RolUsuario;
use crate::tipos::Usuario;
use vstd::prelude::*;

verus! {

/// Reputación por la que se ordena: como vendedor o como comprador.
pub open spec fn clave_usuario(u: Usuario, por_vendedor: bool) -> u32 {
    if por_vendedor {
        u.reputacion_como_vendedor
    } else {
        u.reputacion_como_comprador
    }
}

/// Inserta `u` en una secuencia ordenada por clave descendente, detrás de
/// todos los elementos de clave mayor o igual: así la inserción es estable.
pub open spec fn inserta_usuario(s: Seq<Usuario>, u: Usuario, por_vendedor: bool) -> Seq<Usuario>
    decreases s.len(),
{
    if s.len() == 0 {
        seq![u]
    } else if clave_usuario(s[0], por_vendedor) >= clave_usuario(u, por_vendedor) {
        seq![s[0]] + inserta_usuario(s.drop_first(), u, por_vendedor)
    } else {
        seq![u] + s
    }
}

/// Ordenamiento estable por clave descendente: inserción de izquierda a
/// derecha.
pub open spec fn ordena_usuarios(s: Seq<Usuario>, por_vendedor: bool) -> Seq<Usuario>
    decreases s.len(),
{
    if s.len() == 0 {
        Seq::empty()
    } else {
        inserta_usuario(ordena_usuarios(s.drop_last(), por_vendedor), s.last(), por_vendedor)
    }
}

/// La secuencia está ordenada por clave descendente.
pub open spec fn usuarios_ordenados(s: Seq<Usuario>, por_vendedor: bool) -> bool {
    forall|i: int, j: int|
        0 <= i < j < s.len() ==> clave_usuario(#[trigger] s[i], por_vendedor) >= clave_usuario(
            #[trigger] s[j],
            por_vendedor,
        )
}

/// El rol participa del lado pedido: vendedores o compradores; `Ambos`
/// participa de los dos.
pub open spec fn rol_participa(rol: RolUsuario, como_vendedor: bool) -> bool {
    if como_vendedor {
        rol == RolUsuario::Vendedor || rol == RolUsuario::Ambos
    } else {
        rol == RolUsuario::Comprador || rol == RolUsuario::Ambos
    }
}

/// Usuarios cuyo rol participa del lado pedido, en el orden dado.
pub open spec fn filtra_usuarios(s: Seq<Usuario>, como_vendedor: bool) -> Seq<Usuario>
    decreases s.len(),
{
    if s.len() == 0 {
        Seq::empty()
    } else {
        let prefijo = filtra_usuarios(s.drop_last(), como_vendedor);
        if rol_participa(s.last().rol, como_vendedor) {
            prefijo.push(s.last())
        } else {
            prefijo
        }
    }
}

/// Los primeros `n` elementos, o todos si hay menos.
pub open spec fn primeros<T>(s: Seq<T>, n: int) -> Seq<T> {
    if s.len() <= n {
        s
    } else {
        s.take(n)
    }
}

/// Los cinco vendedores de mayor reputación: se ordena toda la instantánea
/// por reputación como vendedor, se filtran los roles que venden y se toman
/// los primeros cinco.
pub open spec fn top_5_vendedores_spec(usuarios: Seq<Usuario>) -> Seq<Usuario> {
    primeros(filtra_usuarios(ordena_usuarios(usuarios, true), true), 5)
}

/// Los cinco compradores de mayor reputación, de manera simétrica.
pub open spec fn top_5_compradores_spec(usuarios: Seq<Usuario>) -> Seq<Usuario> {
    primeros(filtra_usuarios(ordena_usuarios(usuarios, false), false), 5)
}

/// Insertar en la posición que encuentra la búsqueda lineal coincide con la
/// inserción estable: `j` es la primera posición de clave menor que la de `u`.
proof fn lemma_inserta_en_posicion(s: Seq<Usuario>, u: Usuario, por_vendedor: bool, j: int)
    requires
        0 <= j <= s.len(),
        forall|k: int|
            0 <= k < j ==> clave_usuario(#[trigger] s[k], por_vendedor) >= clave_usuario(
                u,
                por_vendedor,
            ),
        j < s.len() ==> clave_usuario(s[j], por_vendedor) < clave_usuario(u, por_vendedor),
    ensures
        inserta_usuario(s, u, por_vendedor) == s.insert(j, u),
    decreases s.len(),
{
    if s.len() == 0 {
        assert(inserta_usuario(s, u, por_vendedor) =~= s.insert(0, u));
    } else if j == 0 {
        assert(inserta_usuario(s, u, por_vendedor) =~= s.insert(0, u));
    } else {
        assert(clave_usuario(s[0], por_vendedor) >= clave_usuario(u, por_vendedor));
        lemma_inserta_en_posicion(s.drop_first(), u, por_vendedor, j - 1);
        assert(seq![s[0]] + s.drop_first().insert(j - 1, u) =~= s.insert(j, u));
    }
}

/// Reputación del lado pedido.
fn clave_de(u: &Usuario, por_vendedor: bool) -> (r: u32)
    ensures
        r == clave_usuario(*u, por_vendedor),
{
    if por_vendedor {
        u.reputacion_como_vendedor
    } else {
        u.reputacion_como_comprador
    }
}

/// Ordenamiento estable descendente por la reputación pedida, por inserción.
fn ordenar_usuarios(usuarios: &Vec<Usuario>, por_vendedor: bool) -> (r: Vec<Usuario>)
    ensures
        r@ == ordena_usuarios(usuarios@, por_vendedor),
{
    let mut resultado: Vec<Usuario> = Vec::new();
    let mut i: usize = 0;
    while i < usuarios.len()
        invariant
            i <= usuarios@.len(),
            resultado@ == ordena_usuarios(usuarios@.take(i as int), por_vendedor),
        decreases usuarios@.len() - i,
    {
        let nuevo = usuarios[i];
        let ghost antes = resultado@;
        let mut j: usize = 0;
        while j < resultado.len() && clave_de(&resultado[j], por_vendedor) >= clave_de(
            &nuevo,
            por_vendedor,
        )
            invariant
                j <= resultado@.len(),
                resultado@ == antes,
                forall|k: int|
                    0 <= k < j ==> clave_usuario(#[trigger] resultado@[k], por_vendedor)
                        >= clave_usuario(nuevo, por_vendedor),
            decreases resultado@.len() - j,
        {
            j += 1;
        }
        resultado.insert(j, nuevo);
        proof {
            lemma_inserta_en_posicion(antes, nuevo, por_vendedor, j as int);
            assert(usuarios@.take(i + 1).drop_last() =~= usuarios@.take(i as int));
            assert(usuarios@.take(i + 1).last() == usuarios@[i as int]);
        }
        i += 1;
    }
    proof {
        assert(usuarios@.take(usuarios@.len() as int) =~= usuarios@);
    }
    resultado
}

/// Conserva los usuarios cuyo rol participa del lado pedido.
fn filtrar_usuarios_exec(usuarios: &Vec<Usuario>, como_vendedor: bool) -> (r: Vec<Usuario>)
    ensures
        r@ == filtra_usuarios(usuarios@, como_vendedor),
{
    let mut resultado: Vec<Usuario> = Vec::new();
    let mut i: usize = 0;
    while i < usuarios.len()
        invariant
            i <= usuarios@.len(),
            resultado@ == filtra_usuarios(usuarios@.take(i as int), como_vendedor),
        decreases usuarios@.len() - i,
    {
        proof {
            assert(usuarios@.take(i + 1).drop_last() =~= usuarios@.take(i as int));
            assert(usuarios@.take(i + 1).last() == usuarios@[i as int]);
        }
        let participa = match usuarios[i].rol {
            RolUsuario::Vendedor => como_vendedor,
            RolUsuario::Comprador => !como_vendedor,
            RolUsuario::Ambos => true,
        };
        if participa {
            resultado.push(usuarios[i]);
        }
        i += 1;
    }
    proof {
        assert(usuarios@.take(usuarios@.len() as int) =~= usuarios@);
    }
    resultado
}

/// Recorta a los primeros cinco elementos.
fn primeros_5_usuarios(usuarios: Vec<Usuario>) -> (r: Vec<Usuario>)
    ensures
        r@ == primeros(usuarios@, 5),
{
    let mut recortado = usuarios;
    recortado.truncate(5);
    recortado
}

/// La inserción estable respeta una cota superior de clave.
proof fn lemma_inserta_usuario_cota(s: Seq<Usuario>, u: Usuario, por_vendedor: bool, cota: u32)
    requires
        forall|k: int|
            0 <= k < s.len() ==> clave_usuario(#[trigger] s[k], por_vendedor) <= cota,
        clave_usuario(u, por_vendedor) <= cota,
    ensures
        forall|k: int|
            0 <= k < inserta_usuario(s, u, por_vendedor).len() ==> clave_usuario(
                #[trigger] inserta_usuario(s, u, por_vendedor)[k],
                por_vendedor,
            ) <= cota,
    decreases s.len(),
{
    let t = inserta_usuario(s, u, por_vendedor);
    if s.len() > 0 && clave_usuario(s[0], por_vendedor) >= clave_usuario(u, por_vendedor) {
        assert forall|k: int|
            0 <= k < s.drop_first().len() implies clave_usuario(
            #[trigger] s.drop_first()[k],
            por_vendedor,
        ) <= cota by {
            assert(s.drop_first()[k] == s[k + 1]);
        }
        lemma_inserta_usuario_cota(s.drop_first(), u, por_vendedor, cota);
        let resto = inserta_usuario(s.drop_first(), u, por_vendedor);
        assert forall|k: int|
            0 <= k < t.len() implies clave_usuario(#[trigger] t[k], por_vendedor) <= cota by {
            if k > 0 {
                assert(t[k] == resto[k - 1]);
            }
        }
    } else if s.len() > 0 {
        assert forall|k: int|
            0 <= k < t.len() implies clave_usuario(#[trigger] t[k], por_vendedor) <= cota by {
            if k > 0 {
                assert(t[k] == s[k - 1]);
            }
        }
    }
}

/// Insertar en una secuencia ordenada por clave descendente la deja ordenada.
proof fn lemma_inserta_usuario_ordenada(s: Seq<Usuario>, u: Usuario, por_vendedor: bool)
    requires
        usuarios_ordenados(s, por_vendedor),
    ensures
        usuarios_ordenados(inserta_usuario(s, u, por_vendedor), por_vendedor),
    decreases s.len(),
{
    if s.len() == 0 {
    } else if clave_usuario(s[0], por_vendedor) >= clave_usuario(u, por_vendedor) {
        assert forall|i: int, j: int|
            0 <= i < j < s.drop_first().len() implies clave_usuario(
            #[trigger] s.drop_first()[i],
            por_vendedor,
        ) >= clave_usuario(#[trigger] s.drop_first()[j], por_vendedor) by {
            assert(s.drop_first()[i] == s[i + 1]);
            assert(s.drop_first()[j] == s[j + 1]);
        }
        lemma_inserta_usuario_ordenada(s.drop_first(), u, por_vendedor);
        assert forall|k: int|
            0 <= k < s.drop_first().len() implies clave_usuario(
            #[trigger] s.drop_first()[k],
            por_vendedor,
        ) <= clave_usuario(s[0], por_vendedor) by {
            assert(s.drop_first()[k] == s[k + 1]);
        }
        lemma_inserta_usuario_cota(
            s.drop_first(),
            u,
            por_vendedor,
            clave_usuario(s[0], por_vendedor),
        );
        let t = inserta_usuario(s, u, por_vendedor);
        let resto = inserta_usuario(s.drop_first(), u, por_vendedor);
        assert forall|i: int, j: int|
            0 <= i < j < t.len() implies clave_usuario(#[trigger] t[i], por_vendedor)
            >= clave_usuario(#[trigger] t[j], por_vendedor) by {
            if i == 0 {
                assert(t[j] == resto[j - 1]);
            } else {
                assert(t[i] == resto[i - 1]);
                assert(t[j] == resto[j - 1]);
            }
        }
    } else {
        let t = inserta_usuario(s, u, por_vendedor);
        assert forall|i: int, j: int|
            0 <= i < j < t.len() implies clave_usuario(#[trigger] t[i], por_vendedor)
            >= clave_usuario(#[trigger] t[j], por_vendedor) by {
            if i == 0 {
                assert(t[j] == s[j - 1]);
                if j > 1 {
                    assert(clave_usuario(s[0], por_vendedor) >= clave_usuario(
                        s[j - 1],
                        por_vendedor,
                    ));
                }
            } else {
                assert(t[i] == s[i - 1]);
                assert(t[j] == s[j - 1]);
            }
        }
    }
}

/// El ordenamiento estable produce una secuencia ordenada.
pub proof fn lemma_ordena_usuarios_ordenada(s: Seq<Usuario>, por_vendedor: bool)
    ensures
        usuarios_ordenados(ordena_usuarios(s, por_vendedor), por_vendedor),
    decreases s.len(),
{
    if s.len() > 0 {
        lemma_ordena_usuarios_ordenada(s.drop_last(), por_vendedor);
        lemma_inserta_usuario_ordenada(
            ordena_usuarios(s.drop_last(), por_vendedor),
            s.last(),
            por_vendedor,
        );
    }
}

/// El filtro por rol conserva el orden y sólo deja elementos de la entrada.
pub proof fn lemma_filtra_usuarios_ordenada(s: Seq<Usuario>, como_vendedor: bool)
    requires
        usuarios_ordenados(s, como_vendedor),
    ensures
        usuarios_ordenados(filtra_usuarios(s, como_vendedor), como_vendedor),
        forall|k: int|
            0 <= k < filtra_usuarios(s, como_vendedor).len() ==> exists|k0: int|
                0 <= k0 < s.len() && #[trigger] filtra_usuarios(s, como_vendedor)[k] == s[k0],
    decreases s.len(),
{
    if s.len() > 0 {
        assert forall|i: int, j: int|
            0 <= i < j < s.drop_last().len() implies clave_usuario(
            #[trigger] s.drop_last()[i],
            como_vendedor,
        ) >= clave_usuario(#[trigger] s.drop_last()[j], como_vendedor) by {
            assert(s.drop_last()[i] == s[i]);
            assert(s.drop_last()[j] == s[j]);
        }
        lemma_filtra_usuarios_ordenada(s.drop_last(), como_vendedor);
        let previo = filtra_usuarios(s.drop_last(), como_vendedor);
        let t = filtra_usuarios(s, como_vendedor);
        if rol_participa(s.last().rol, como_vendedor) {
            assert(t == previo.push(s.last()));
            assert forall|k: int| 0 <= k < t.len() implies exists|k0: int|
                0 <= k0 < s.len() && #[trigger] t[k] == s[k0] by {
                if k < previo.len() {
                    let k0 = choose|k0: int|
                        0 <= k0 < s.drop_last().len() && #[trigger] previo[k] == s.drop_last()[k0];
                    assert(t[k] == s[k0]);
                } else {
                    assert(t[k] == s[s.len() - 1]);
                }
            }
            assert forall|i: int, j: int|
                0 <= i < j < t.len() implies clave_usuario(#[trigger] t[i], como_vendedor)
                >= clave_usuario(#[trigger] t[j], como_vendedor) by {
                if j < previo.len() {
                    assert(t[i] == previo[i]);
                    assert(t[j] == previo[j]);
                } else {
                    assert(t[j] == s[s.len() - 1]);
                    assert(t[i] == previo[i]);
                    let k0 = choose|k0: int|
                        0 <= k0 < s.drop_last().len() && #[trigger] previo[i] == s.drop_last()[k0];
                    assert(previo[i] == s[k0]);
                    if k0 < s.len() - 1 {
                        assert(clave_usuario(s[k0], como_vendedor) >= clave_usuario(
                            s[s.len() - 1],
                            como_vendedor,
                        ));
                    }
                }
            }
        } else {
            assert forall|k: int| 0 <= k < t.len() implies exists|k0: int|
                0 <= k0 < s.len() && #[trigger] t[k] == s[k0] by {
                let k0 = choose|k0: int|
                    0 <= k0 < s.drop_last().len() && #[trigger] previo[k] == s.drop_last()[k0];
                assert(t[k] == s[k0]);
            }
        }
    }
}

/// El filtro sólo deja roles que participan del lado pedido.
pub proof fn lemma_filtra_usuarios_roles(s: Seq<Usuario>, como_vendedor: bool)
    ensures
        forall|k: int|
            0 <= k < filtra_usuarios(s, como_vendedor).len() ==> rol_participa(
                (#[trigger] filtra_usuarios(s, como_vendedor)[k]).rol,
                como_vendedor,
            ),
    decreases s.len(),
{
    if s.len() > 0 {
        lemma_filtra_usuarios_roles(s.drop_last(), como_vendedor);
    }
}

/// Los cinco vendedores del reporte excluyen a los compradores puros, están
/// ordenados por reputación como vendedor descendente y son a lo sumo cinco.
pub proof fn lemma_top_5_vendedores(usuarios: Seq<Usuario>)
    ensures
        top_5_vendedores_spec(usuarios).len() <= 5,
        forall|k: int|
            0 <= k < top_5_vendedores_spec(usuarios).len() ==> (#[trigger] top_5_vendedores_spec(
                usuarios,
            )[k]).rol != RolUsuario::Comprador,
        forall|i: int, j: int|
            0 <= i < j < top_5_vendedores_spec(usuarios).len() ==> (#[trigger] top_5_vendedores_spec(
                usuarios,
            )[i]).reputacion_como_vendedor >= (#[trigger] top_5_vendedores_spec(
                usuarios,
            )[j]).reputacion_como_vendedor,
{
    lemma_ordena_usuarios_ordenada(usuarios, true);
    lemma_filtra_usuarios_ordenada(ordena_usuarios(usuarios, true), true);
    lemma_filtra_usuarios_roles(ordena_usuarios(usuarios, true), true);
    let filtrados = filtra_usuarios(ordena_usuarios(usuarios, true), true);
    let top = top_5_vendedores_spec(usuarios);
    assert forall|k: int| 0 <= k < top.len() implies (#[trigger] top[k]).rol
        != RolUsuario::Comprador by {
        assert(top[k] == filtrados[k]);
        assert(rol_participa(filtrados[k].rol, true));
    }
    assert forall|i: int, j: int|
        0 <= i < j < top.len() implies (#[trigger] top[i]).reputacion_como_vendedor
        >= (#[trigger] top[j]).reputacion_como_vendedor by {
        assert(top[i] == filtrados[i]);
        assert(top[j] == filtrados[j]);
        assert(clave_usuario(filtrados[i], true) >= clave_usuario(filtrados[j], true));
    }
}

/// Los cinco compradores del reporte excluyen a los vendedores puros, están
/// ordenados por reputación como comprador descendente y son a lo sumo cinco.
pub proof fn lemma_top_5_compradores(usuarios: Seq<Usuario>)
    ensures
        top_5_compradores_spec(usuarios).len() <= 5,
        forall|k: int|
            0 <= k < top_5_compradores_spec(usuarios).len() ==> (#[trigger] top_5_compradores_spec(
                usuarios,
            )[k]).rol != RolUsuario::Vendedor,
        forall|i: int, j: int|
            0 <= i < j < top_5_compradores_spec(usuarios).len() ==> (
            #[trigger] top_5_compradores_spec(usuarios)[i]).reputacion_como_comprador >= (
            #[trigger] top_5_compradores_spec(usuarios)[j]).reputacion_como_comprador,
{
    lemma_ordena_usuarios_ordenada(usuarios, false);
    lemma_filtra_usuarios_ordenada(ordena_usuarios(usuarios, false), false);
    lemma_filtra_usuarios_roles(ordena_usuarios(usuarios, false), false);
    let filtrados = filtra_usuarios(ordena_usuarios(usuarios, false), false);
    let top = top_5_compradores_spec(usuarios);
    assert forall|k: int| 0 <= k < top.len() implies (#[trigger] top[k]).rol
        != RolUsuario::Vendedor by {
        assert(top[k] == filtrados[k]);
        assert(rol_participa(filtrados[k].rol, false));
    }
    assert forall|i: int, j: int|
        0 <= i < j < top.len() implies (#[trigger] top[i]).reputacion_como_comprador
        >= (#[trigger] top[j]).reputacion_como_comprador by {
        assert(top[i] == filtrados[i]);
        assert(top[j] == filtrados[j]);
        assert(clave_usuario(filtrados[i], false) >= clave_usuario(filtrados[j], false));
    }
}

/// Primera posición del producto con este identificador, o -1 si no hay.
pub open spec fn busca_producto(productos: Seq<Producto>, id: u32) -> int
    decreases productos.len(),
{
    if productos.len() == 0 {
        -1
    } else if productos[0].id == id {
        0
    } else {
        let resto = busca_producto(productos.drop_first(), id);
        if resto < 0 {
            -1
        } else {
            resto + 1
        }
    }
}

/// `busca_producto` devuelve la primera coincidencia, o -1 si no hay ninguna.
pub proof fn lemma_busca_producto(productos: Seq<Producto>, id: u32)
    ensures
        busca_producto(productos, id) >= 0 ==> busca_producto(productos, id) < productos.len()
            && productos[busca_producto(productos, id)].id == id && forall|k: int|
            0 <= k < busca_producto(productos, id) ==> (#[trigger] productos[k]).id != id,
        busca_producto(productos, id) < 0 ==> forall|k: int|
            0 <= k < productos.len() ==> (#[trigger] productos[k]).id != id,
    decreases productos.len(),
{
    if productos.len() > 0 && productos[0].id != id {
        lemma_busca_producto(productos.drop_first(), id);
        let resto = busca_producto(productos.drop_first(), id);
        if resto >= 0 {
            assert(busca_producto(productos, id) == resto + 1);
            assert(productos[resto + 1] == productos.drop_first()[resto]);
            assert forall|k: int|
                0 <= k < resto + 1 implies (#[trigger] productos[k]).id != id by {
                if k > 0 {
                    assert(productos.drop_first()[k - 1].id != id);
                }
            }
        } else {
            assert forall|k: int|
                0 <= k < productos.len() implies (#[trigger] productos[k]).id != id by {
                if k > 0 {
                    assert(productos.drop_first()[k - 1].id != id);
                }
            }
        }
    }
}

/// Primera posición del producto, ejecutable.
fn buscar_producto_exec(productos: &Vec<Producto>, id: u32) -> (r: Option<usize>)
    ensures
        match r {
            Some(i) => busca_producto(productos@, id) == i,
            None => busca_producto(productos@, id) < 0,
        },
{
    let mut i: usize = 0;
    while i < productos.len()
        invariant
            i <= productos@.len(),
            forall|k: int| 0 <= k < i ==> (#[trigger] productos@[k]).id != id,
        decreases productos@.len() - i,
    {
        if productos[i].id == id {
            proof {
                lemma_busca_producto(productos@, id);
                let b = busca_producto(productos@, id);
                assert(b >= 0);
                if b < i as int {
                    assert(productos@[b].id != id);
                } else if b > i as int {
                    assert(productos@[i as int].id != id);
                }
            }
            return Some(i);
        }
        i += 1;
    }
    proof {
        lemma_busca_producto(productos@, id);
        let b = busca_producto(productos@, id);
        if b >= 0 {
            assert(productos@[b].id != id);
        }
    }
    None
}

/// Suma `cant` a la entrada del producto `id`, o crea la entrada; las
/// entradas se mantienen en orden ascendente de identificador, como las
/// recorre un mapa ordenado.
pub open spec fn agrega_venta(entradas: Seq<(u32, u32)>, id: u32, cant: u32) -> Seq<(u32, u32)>
    decreases entradas.len(),
{
    if entradas.len() == 0 {
        seq![(id, cant)]
    } else if entradas[0].0 == id {
        seq![(id, suma_saturada(entradas[0].1, cant))] + entradas.drop_first()
    } else if id < entradas[0].0 {
        seq![(id, cant)] + entradas
    } else {
        seq![entradas[0]] + agrega_venta(entradas.drop_first(), id, cant)
    }
}

/// Totales vendidos por producto sobre las órdenes recibidas, en orden
/// ascendente de identificador; sólo cuentan los productos presentes en la
/// instantánea.
pub open spec fn acumula_ventas(productos: Seq<Producto>, ordenes: Seq<Orden>) -> Seq<(u32, u32)>
    decreases ordenes.len(),
{
    if ordenes.len() == 0 {
        Seq::empty()
    } else {
        let prefijo = acumula_ventas(productos, ordenes.drop_last());
        let o = ordenes.last();
        if o.estado == EstadoOrden::Recibida && busca_producto(productos, o.producto_id) >= 0 {
            agrega_venta(prefijo, o.producto_id, o.cantidad)
        } else {
            prefijo
        }
    }
}

/// La modificación en la posición que encuentra la búsqueda lineal coincide
/// con `agrega_venta`: `j` es la primera posición de identificador no menor.
proof fn lemma_agrega_en_posicion(entradas: Seq<(u32, u32)>, id: u32, cant: u32, j: int)
    requires
        0 <= j <= entradas.len(),
        forall|k: int| 0 <= k < j ==> (#[trigger] entradas[k]).0 < id,
        j < entradas.len() ==> entradas[j].0 >= id,
    ensures
        j < entradas.len() && entradas[j].0 == id ==> agrega_venta(entradas, id, cant) == entradas
            .update(j, (id, suma_saturada(entradas[j].1, cant))),
        !(j < entradas.len() && entradas[j].0 == id) ==> agrega_venta(entradas, id, cant)
            == entradas.insert(j, (id, cant)),
    decreases entradas.len(),
{
    if entradas.len() == 0 {
        assert(agrega_venta(entradas, id, cant) =~= entradas.insert(0, (id, cant)));
    } else if j == 0 {
        if entradas[0].0 == id {
            assert(agrega_venta(entradas, id, cant) =~= entradas.update(
                0,
                (id, suma_saturada(entradas[0].1, cant)),
            ));
        } else {
            assert(agrega_venta(entradas, id, cant) =~= entradas.insert(0, (id, cant)));
        }
    } else {
        assert(entradas[0].0 < id);
        lemma_agrega_en_posicion(entradas.drop_first(), id, cant, j - 1);
        if j < entradas.len() && entradas[j].0 == id {
            assert(entradas.drop_first()[j - 1] == entradas[j]);
            assert(seq![entradas[0]] + entradas.drop_first().update(
                j - 1,
                (id, suma_saturada(entradas[j].1, cant)),
            ) =~= entradas.update(j, (id, suma_saturada(entradas[j].1, cant))));
        } else {
            assert(seq![entradas[0]] + entradas.drop_first().insert(j - 1, (id, cant)) =~= entradas
                .insert(j, (id, cant)));
        }
    }
}

/// Aplica `agrega_venta` sobre el vector de entradas.
fn agregar_venta_exec(entradas: &mut Vec<(u32, u32)>, id: u32, cant: u32)
    ensures
        final(entradas)@ == agrega_venta(old(entradas)@, id, cant),
        forall|k: int|
            0 <= k < final(entradas)@.len() ==> ((#[trigger] final(entradas)@[k]).0 == id
                || exists|k0: int|
                0 <= k0 < old(entradas)@.len() && (#[trigger] old(entradas)@[k0]).0
                    == final(entradas)@[k].0),
{
    let mut j: usize = 0;
    while j < entradas.len() && entradas[j].0 < id
        invariant
            j <= entradas@.len(),
            entradas@ == old(entradas)@,
            forall|k: int| 0 <= k < j ==> (#[trigger] entradas@[k]).0 < id,
        decreases entradas@.len() - j,
    {
        j += 1;
    }
    proof {
        lemma_agrega_en_posicion(entradas@, id, cant, j as int);
    }
    if j < entradas.len() && entradas[j].0 == id {
        let total = entradas[j].1.saturating_add(cant);
        entradas[j] = (id, total);
    } else {
        entradas.insert(j, (id, cant));
    }
}

/// Las entradas acumuladas están en orden estrictamente ascendente de
/// identificador de producto, como las recorre un mapa ordenado.
pub open spec fn entradas_ascendentes(entradas: Seq<(u32, u32)>) -> bool {
    forall|i: int, j: int|
        0 <= i < j < entradas.len() ==> (#[trigger] entradas[i]).0 < (#[trigger] entradas[j]).0
}

/// Primera posición de la entrada del producto `id`, o -1 si no hay.
pub open spec fn busca_entrada(entradas: Seq<(u32, u32)>, id: u32) -> int
    decreases entradas.len(),
{
    if entradas.len() == 0 {
        -1
    } else if entradas[0].0 == id {
        0
    } else {
        let resto = busca_entrada(entradas.drop_first(), id);
        if resto < 0 {
            -1
        } else {
            resto + 1
        }
    }
}

/// `busca_entrada` devuelve la primera coincidencia, o -1 si no hay ninguna.
pub proof fn lemma_busca_entrada(entradas: Seq<(u32, u32)>, id: u32)
    ensures
        busca_entrada(entradas, id) >= 0 ==> busca_entrada(entradas, id) < entradas.len()
            && entradas[busca_entrada(entradas, id)].0 == id,
        busca_entrada(entradas, id) < 0 ==> forall|k: int|
            0 <= k < entradas.len() ==> (#[trigger] entradas[k]).0 != id,
    decreases entradas.len(),
{
    if entradas.len() > 0 && entradas[0].0 != id {
        lemma_busca_entrada(entradas.drop_first(), id);
        let resto = busca_entrada(entradas.drop_first(), id);
        if resto >= 0 {
            assert(entradas[resto + 1] == entradas.drop_first()[resto]);
        } else {
            assert forall|k: int|
                0 <= k < entradas.len() implies (#[trigger] entradas[k]).0 != id by {
                if k > 0 {
                    assert(entradas.drop_first()[k - 1].0 != id);
                }
            }
        }
    }
}

/// Total vendido del producto `id` sobre las órdenes recibidas, con suma
/// saturada.
pub open spec fn total_recibido(ordenes: Seq<Orden>, id: u32) -> u32
    decreases ordenes.len(),
{
    if ordenes.len() == 0 {
        0
    } else {
        let previo = total_recibido(ordenes.drop_last(), id);
        let o = ordenes.last();
        if o.estado == EstadoOrden::Recibida && o.producto_id == id {
            suma_saturada(previo, o.cantidad)
        } else {
            previo
        }
    }
}

/// Hay al menos una orden recibida del producto `id`.
pub open spec fn hay_venta_recibida(ordenes: Seq<Orden>, id: u32) -> bool {
    exists|k: int|
        0 <= k < ordenes.len() && (#[trigger] ordenes[k]).estado == EstadoOrden::Recibida
            && ordenes[k].producto_id == id
}

/// Sin órdenes recibidas del producto, el total es nulo.
pub proof fn lemma_total_sin_ventas(ordenes: Seq<Orden>, id: u32)
    requires
        !hay_venta_recibida(ordenes, id),
    ensures
        total_recibido(ordenes, id) == 0,
    decreases ordenes.len(),
{
    if ordenes.len() > 0 {
        assert forall|k: int|
            0 <= k < ordenes.drop_last().len() implies !((#[trigger] ordenes.drop_last()[k]).estado
            == EstadoOrden::Recibida && ordenes.drop_last()[k].producto_id == id) by {
            assert(ordenes.drop_last()[k] == ordenes[k]);
            assert(!(ordenes[k].estado == EstadoOrden::Recibida && ordenes[k].producto_id == id));
        }
        lemma_total_sin_ventas(ordenes.drop_last(), id);
        assert(ordenes.last() == ordenes[ordenes.len() - 1]);
    }
}

/// `agrega_venta` respeta una cota inferior estricta de identificadores.
proof fn lemma_agrega_cota(entradas: Seq<(u32, u32)>, id: u32, cant: u32, cota: u32)
    requires
        forall|k: int| 0 <= k < entradas.len() ==> (#[trigger] entradas[k]).0 > cota,
        id > cota,
    ensures
        forall|k: int|
            0 <= k < agrega_venta(entradas, id, cant).len() ==> (#[trigger] agrega_venta(
                entradas,
                id,
                cant,
            )[k]).0 > cota,
    decreases entradas.len(),
{
    let t = agrega_venta(entradas, id, cant);
    if entradas.len() == 0 {
    } else if entradas[0].0 == id {
        assert forall|k: int| 0 <= k < t.len() implies (#[trigger] t[k]).0 > cota by {
            if k > 0 {
                assert(t[k] == entradas.drop_first()[k - 1]);
                assert(entradas.drop_first()[k - 1] == entradas[k]);
            }
        }
    } else if id < entradas[0].0 {
        assert forall|k: int| 0 <= k < t.len() implies (#[trigger] t[k]).0 > cota by {
            if k > 0 {
                assert(t[k] == entradas[k - 1]);
            }
        }
    } else {
        assert forall|k: int|
            0 <= k < entradas.drop_first().len() implies (#[trigger] entradas.drop_first()[k]).0
            > cota by {
            assert(entradas.drop_first()[k] == entradas[k + 1]);
        }
        lemma_agrega_cota(entradas.drop_first(), id, cant, cota);
        let resto = agrega_venta(entradas.drop_first(), id, cant);
        assert forall|k: int| 0 <= k < t.len() implies (#[trigger] t[k]).0 > cota by {
            if k > 0 {
                assert(t[k] == resto[k - 1]);
            }
        }
    }
}

/// `agrega_venta` conserva el orden ascendente de las entradas.
proof fn lemma_agrega_ascendente(entradas: Seq<(u32, u32)>, id: u32, cant: u32)
    requires
        entradas_ascendentes(entradas),
    ensures
        entradas_ascendentes(agrega_venta(entradas, id, cant)),
    decreases entradas.len(),
{
    let t = agrega_venta(entradas, id, cant);
    if entradas.len() == 0 {
    } else if entradas[0].0 == id {
        assert forall|i: int, j: int|
            0 <= i < j < t.len() implies (#[trigger] t[i]).0 < (#[trigger] t[j]).0 by {
            if i > 0 {
                assert(t[i] == entradas[i]);
            }
            assert(t[j] == entradas[j]);
        }
    } else if id < entradas[0].0 {
        assert forall|i: int, j: int|
            0 <= i < j < t.len() implies (#[trigger] t[i]).0 < (#[trigger] t[j]).0 by {
            if i > 0 {
                assert(t[i] == entradas[i - 1]);
            }
            assert(t[j] == entradas[j - 1]);
            if i > 0 {
                assert(entradas[i - 1].0 < entradas[j - 1].0);
            }
        }
    } else {
        assert forall|i: int, j: int|
            0 <= i < j < entradas.drop_first().len() implies (#[trigger] entradas.drop_first()[i]).0
            < (#[trigger] entradas.drop_first()[j]).0 by {
            assert(entradas.drop_first()[i] == entradas[i + 1]);
            assert(entradas.drop_first()[j] == entradas[j + 1]);
        }
        lemma_agrega_ascendente(entradas.drop_first(), id, cant);
        assert forall|k: int|
            0 <= k < entradas.drop_first().len() implies (#[trigger] entradas.drop_first()[k]).0
            > entradas[0].0 by {
            assert(entradas.drop_first()[k] == entradas[k + 1]);
        }
        lemma_agrega_cota(entradas.drop_first(), id, cant, entradas[0].0);
        let resto = agrega_venta(entradas.drop_first(), id, cant);
        assert forall|i: int, j: int|
            0 <= i < j < t.len() implies (#[trigger] t[i]).0 < (#[trigger] t[j]).0 by {
            assert(t[j] == resto[j - 1]);
            if i > 0 {
                assert(t[i] == resto[i - 1]);
            }
        }
    }
}

/// Tras `agrega_venta`, la entrada del producto agregado existe y lleva la
/// suma saturada de su total previo (o cero) con la cantidad agregada.
proof fn lemma_agrega_valor(entradas: Seq<(u32, u32)>, id: u32, cant: u32)
    requires
        entradas_ascendentes(entradas),
    ensures
        busca_entrada(agrega_venta(entradas, id, cant), id) >= 0,
        agrega_venta(entradas, id, cant)[busca_entrada(agrega_venta(entradas, id, cant), id)].1
            == if busca_entrada(entradas, id) >= 0 {
            suma_saturada(entradas[busca_entrada(entradas, id)].1, cant)
        } else {
            cant
        },
    decreases entradas.len(),
{
    let t = agrega_venta(entradas, id, cant);
    if entradas.len() == 0 {
    } else if entradas[0].0 == id {
        assert(busca_entrada(t, id) == 0);
    } else if id < entradas[0].0 {
        assert(t[0].0 == id);
        assert(busca_entrada(t, id) == 0);
        lemma_busca_entrada(entradas, id);
        if busca_entrada(entradas, id) >= 0 {
            let j0 = busca_entrada(entradas, id);
            assert(entradas[j0].0 == id);
            assert(entradas[0].0 < entradas[j0].0 || j0 == 0);
            assert(false);
        }
    } else {
        assert forall|i: int, j: int|
            0 <= i < j < entradas.drop_first().len() implies (#[trigger] entradas.drop_first()[i]).0
            < (#[trigger] entradas.drop_first()[j]).0 by {
            assert(entradas.drop_first()[i] == entradas[i + 1]);
            assert(entradas.drop_first()[j] == entradas[j + 1]);
        }
        lemma_agrega_valor(entradas.drop_first(), id, cant);
        let resto = agrega_venta(entradas.drop_first(), id, cant);
        let jr = busca_entrada(resto, id);
        lemma_busca_entrada(resto, id);
        lemma_busca_entrada(entradas.drop_first(), id);
        assert(t[0] == entradas[0]);
        assert(t.drop_first() =~= resto);
        assert(busca_entrada(t, id) == jr + 1);
        assert(t[jr + 1] == resto[jr]);
        assert(busca_entrada(entradas, id) == if busca_entrada(entradas.drop_first(), id) < 0 {
            -1int
        } else {
            busca_entrada(entradas.drop_first(), id) + 1
        });
        if busca_entrada(entradas.drop_first(), id) >= 0 {
            assert(entradas[busca_entrada(entradas, id)] == entradas.drop_first()[busca_entrada(
                entradas.drop_first(),
                id,
            )]);
        }
    }
}

/// `agrega_venta` no toca las entradas de los demás productos.
proof fn lemma_agrega_otro(entradas: Seq<(u32, u32)>, id: u32, cant: u32, otro: u32)
    requires
        otro != id,
    ensures
        busca_entrada(agrega_venta(entradas, id, cant), otro) >= 0 <==> busca_entrada(
            entradas,
            otro,
        ) >= 0,
        busca_entrada(entradas, otro) >= 0 ==> agrega_venta(entradas, id, cant)[busca_entrada(
            agrega_venta(entradas, id, cant),
            otro,
        )] == entradas[busca_entrada(entradas, otro)],
    decreases entradas.len(),
{
    let t = agrega_venta(entradas, id, cant);
    if entradas.len() == 0 {
        assert(t[0].0 == id);
        assert(busca_entrada(t.drop_first(), otro) < 0);
    } else if entradas[0].0 == id {
        lemma_busca_entrada(entradas.drop_first(), otro);
        assert(t.drop_first() =~= entradas.drop_first());
        assert(busca_entrada(t, otro) == if busca_entrada(entradas.drop_first(), otro) < 0 {
            -1int
        } else {
            busca_entrada(entradas.drop_first(), otro) + 1
        });
        if busca_entrada(entradas.drop_first(), otro) >= 0 {
            let j = busca_entrada(entradas.drop_first(), otro);
            assert(t[j + 1] == entradas.drop_first()[j]);
            assert(entradas[j + 1] == entradas.drop_first()[j]);
        }
    } else if id < entradas[0].0 {
        lemma_busca_entrada(entradas, otro);
        assert(t[0].0 == id);
        assert(t.drop_first() =~= entradas);
        assert(busca_entrada(t, otro) == if busca_entrada(entradas, otro) < 0 {
            -1int
        } else {
            busca_entrada(entradas, otro) + 1
        });
        if busca_entrada(entradas, otro) >= 0 {
            assert(t[busca_entrada(entradas, otro) + 1] == entradas[busca_entrada(
                entradas,
                otro,
            )]);
        }
    } else {
        lemma_agrega_otro(entradas.drop_first(), id, cant, otro);
        let resto = agrega_venta(entradas.drop_first(), id, cant);
        lemma_busca_entrada(resto, otro);
        lemma_busca_entrada(entradas.drop_first(), otro);
        assert(t[0] == entradas[0]);
        assert(t.drop_first() =~= resto);
        if entradas[0].0 == otro {
            assert(busca_entrada(t, otro) == 0);
            assert(busca_entrada(entradas, otro) == 0);
        } else {
            assert(busca_entrada(t, otro) == if busca_entrada(resto, otro) < 0 {
                -1int
            } else {
                busca_entrada(resto, otro) + 1
            });
            assert(busca_entrada(entradas, otro) == if busca_entrada(
                entradas.drop_first(),
                otro,
            ) < 0 {
                -1int
            } else {
                busca_entrada(entradas.drop_first(), otro) + 1
            });
            if busca_entrada(entradas.drop_first(), otro) >= 0 {
                assert(t[busca_entrada(resto, otro) + 1] == resto[busca_entrada(resto, otro)]);
                assert(entradas[busca_entrada(entradas.drop_first(), otro) + 1]
                    == entradas.drop_first()[busca_entrada(entradas.drop_first(), otro)]);
            }
        }
    }
}

/// Las entradas acumuladas están en orden ascendente de identificador.
pub proof fn lemma_acumula_ascendente(productos: Seq<Producto>, ordenes: Seq<Orden>)
    ensures
        entradas_ascendentes(acumula_ventas(productos, ordenes)),
    decreases ordenes.len(),
{
    if ordenes.len() > 0 {
        lemma_acumula_ascendente(productos, ordenes.drop_last());
        let o = ordenes.last();
        if o.estado == EstadoOrden::Recibida && busca_producto(productos, o.producto_id) >= 0 {
            lemma_agrega_ascendente(
                acumula_ventas(productos, ordenes.drop_last()),
                o.producto_id,
                o.cantidad,
            );
        }
    }
}

/// La entrada acumulada de cada producto existente lleva exactamente el
/// total de sus órdenes recibidas, y sólo existe si hubo alguna.
pub proof fn lemma_acumula_valor(productos: Seq<Producto>, ordenes: Seq<Orden>, id: u32)
    ensures
        busca_producto(productos, id) < 0 ==> busca_entrada(
            acumula_ventas(productos, ordenes),
            id,
        ) < 0,
        busca_producto(productos, id) >= 0 ==> (busca_entrada(
            acumula_ventas(productos, ordenes),
            id,
        ) >= 0 <==> hay_venta_recibida(ordenes, id)),
        busca_producto(productos, id) >= 0 && busca_entrada(acumula_ventas(productos, ordenes), id)
            >= 0 ==> acumula_ventas(productos, ordenes)[busca_entrada(
            acumula_ventas(productos, ordenes),
            id,
        )].1 == total_recibido(ordenes, id),
    decreases ordenes.len(),
{
    if ordenes.len() > 0 {
        lemma_acumula_valor(productos, ordenes.drop_last(), id);
        lemma_acumula_ascendente(productos, ordenes.drop_last());
        let previo = acumula_ventas(productos, ordenes.drop_last());
        let e = acumula_ventas(productos, ordenes);
        let o = ordenes.last();
        assert(o == ordenes[ordenes.len() - 1]);
        assert forall|k: int|
            0 <= k < ordenes.drop_last().len() implies ordenes.drop_last()[k] == ordenes[k] by {}
        if o.estado == EstadoOrden::Recibida && busca_producto(productos, o.producto_id) >= 0 {
            if o.producto_id == id {
                lemma_agrega_valor(previo, id, o.cantidad);
                if busca_entrada(previo, id) >= 0 {
                    assert(hay_venta_recibida(ordenes.drop_last(), id));
                    let k0 = choose|k0: int|
                        0 <= k0 < ordenes.drop_last().len() && (#[trigger] ordenes.drop_last()[k0]).estado
                            == EstadoOrden::Recibida && ordenes.drop_last()[k0].producto_id == id;
                    assert(ordenes[k0].estado == EstadoOrden::Recibida && ordenes[k0].producto_id
                        == id);
                } else {
                    if hay_venta_recibida(ordenes.drop_last(), id) {
                        assert(false);
                    }
                    lemma_total_sin_ventas(ordenes.drop_last(), id);
                }
                assert(hay_venta_recibida(ordenes, id));
            } else {
                lemma_agrega_otro(previo, o.producto_id, o.cantidad, id);
                if busca_producto(productos, id) >= 0 {
                    assert(hay_venta_recibida(ordenes, id) <==> hay_venta_recibida(
                        ordenes.drop_last(),
                        id,
                    )) by {
                        if hay_venta_recibida(ordenes, id) {
                            let k0 = choose|k0: int|
                                0 <= k0 < ordenes.len() && (#[trigger] ordenes[k0]).estado
                                    == EstadoOrden::Recibida && ordenes[k0].producto_id == id;
                            assert(k0 < ordenes.len() - 1);
                            assert(ordenes.drop_last()[k0].estado == EstadoOrden::Recibida
                                && ordenes.drop_last()[k0].producto_id == id);
                        }
                        if hay_venta_recibida(ordenes.drop_last(), id) {
                            let k0 = choose|k0: int|
                                0 <= k0 < ordenes.drop_last().len() && (
                                #[trigger] ordenes.drop_last()[k0]).estado == EstadoOrden::Recibida
                                    && ordenes.drop_last()[k0].producto_id == id;
                            assert(ordenes[k0].estado == EstadoOrden::Recibida
                                && ordenes[k0].producto_id == id);
                        }
                    }
                }
            }
        } else {
            assert(e == previo);
            if busca_producto(productos, id) >= 0 {
                assert(hay_venta_recibida(ordenes, id) <==> hay_venta_recibida(
                    ordenes.drop_last(),
                    id,
                )) by {
                    if hay_venta_recibida(ordenes, id) {
                        let k0 = choose|k0: int|
                            0 <= k0 < ordenes.len() && (#[trigger] ordenes[k0]).estado
                                == EstadoOrden::Recibida && ordenes[k0].producto_id == id;
                        if k0 == ordenes.len() - 1 {
                            assert(busca_producto(productos, id) < 0);
                            assert(false);
                        }
                        assert(ordenes.drop_last()[k0].estado == EstadoOrden::Recibida
                            && ordenes.drop_last()[k0].producto_id == id);
                    }
                    if hay_venta_recibida(ordenes.drop_last(), id) {
                        let k0 = choose|k0: int|
                            0 <= k0 < ordenes.drop_last().len() && (
                            #[trigger] ordenes.drop_last()[k0]).estado == EstadoOrden::Recibida
                                && ordenes.drop_last()[k0].producto_id == id;
                        assert(ordenes[k0].estado == EstadoOrden::Recibida && ordenes[k0].producto_id
                            == id);
                    }
                }
            }
        }
    }
}

/// Renglones del reporte para cada entrada acumulada: el nombre del primer
/// producto con ese identificador y el total vendido.
pub open spec fn reportes_de(productos: Seq<Producto>, entradas: Seq<(u32, u32)>) -> Seq<
    ReporteProductoVendido,
>
    decreases entradas.len(),
{
    if entradas.len() == 0 {
        Seq::empty()
    } else {
        reportes_de(productos, entradas.drop_last()).push(
            ReporteProductoVendido {
                nombre_producto: productos[busca_producto(productos, entradas.last().0)].nombre,
                total_vendido: entradas.last().1,
            },
        )
    }
}

/// Construye los renglones del reporte desde las entradas acumuladas.
fn reportes_desde_entradas(productos: &Vec<Producto>, entradas: &Vec<(u32, u32)>) -> (r: Vec<
    ReporteProductoVendido,
>)
    requires
        forall|k: int|
            0 <= k < entradas@.len() ==> busca_producto(productos@, (#[trigger] entradas@[k]).0)
                >= 0,
    ensures
        r@ == reportes_de(productos@, entradas@),
{
    let mut resultado: Vec<ReporteProductoVendido> = Vec::new();
    let mut i: usize = 0;
    while i < entradas.len()
        invariant
            i <= entradas@.len(),
            resultado@ == reportes_de(productos@, entradas@.take(i as int)),
            forall|k: int|
                0 <= k < entradas@.len() ==> busca_producto(productos@, (#[trigger] entradas@[k]).0)
                    >= 0,
        decreases entradas@.len() - i,
    {
        proof {
            assert(entradas@.take(i + 1).drop_last() =~= entradas@.take(i as int));
            assert(entradas@.take(i + 1).last() == entradas@[i as int]);
            lemma_busca_producto(productos@, entradas@[i as int].0);
        }
        let entrada = entradas[i];
        let posicion = match buscar_producto_exec(productos, entrada.0) {
            Some(p) => p,
            None => {
                proof {
                    assert(false);
                }
                0
            },
        };
        resultado.push(
            ReporteProductoVendido {
                nombre_producto: productos[posicion].nombre.clone(),
                total_vendido: entrada.1,
            },
        );
        i += 1;
    }
    proof {
        assert(entradas@.take(entradas@.len() as int) =~= entradas@);
    }
    resultado
}

/// Inserta un renglón en una secuencia ordenada por total descendente,
/// detrás de los totales mayores o iguales: inserción estable.
pub open spec fn inserta_reporte(s: Seq<ReporteProductoVendido>, r: ReporteProductoVendido) -> Seq<
    ReporteProductoVendido,
>
    decreases s.len(),
{
    if s.len() == 0 {
        seq![r]
    } else if s[0].total_vendido >= r.total_vendido {
        seq![s[0]] + inserta_reporte(s.drop_first(), r)
    } else {
        seq![r] + s
    }
}

/// Ordenamiento estable de los renglones por total vendido descendente.
pub open spec fn ordena_reportes(s: Seq<ReporteProductoVendido>) -> Seq<ReporteProductoVendido>
    decreases s.len(),
{
    if s.len() == 0 {
        Seq::empty()
    } else {
        inserta_reporte(ordena_reportes(s.drop_last()), s.last())
    }
}

/// Insertar en la posición que encuentra la búsqueda lineal coincide con la
/// inserción estable.
proof fn lemma_inserta_reporte_en_posicion(
    s: Seq<ReporteProductoVendido>,
    r: ReporteProductoVendido,
    j: int,
)
    requires
        0 <= j <= s.len(),
        forall|k: int| 0 <= k < j ==> (#[trigger] s[k]).total_vendido >= r.total_vendido,
        j < s.len() ==> s[j].total_vendido < r.total_vendido,
    ensures
        inserta_reporte(s, r) == s.insert(j, r),
    decreases s.len(),
{
    if s.len() == 0 {
        assert(inserta_reporte(s, r) =~= s.insert(0, r));
    } else if j == 0 {
        assert(inserta_reporte(s, r) =~= s.insert(0, r));
    } else {
        assert(s[0].total_vendido >= r.total_vendido);
        lemma_inserta_reporte_en_posicion(s.drop_first(), r, j - 1);
        assert(seq![s[0]] + s.drop_first().insert(j - 1, r) =~= s.insert(j, r));
    }
}

/// Ordenamiento estable descendente de los renglones, por inserción.
fn ordenar_reportes(reportes: &Vec<ReporteProductoVendido>) -> (r: Vec<ReporteProductoVendido>)
    ensures
        r@ == ordena_reportes(reportes@),
{
    let mut resultado: Vec<ReporteProductoVendido> = Vec::new();
    let mut i: usize = 0;
    while i < reportes.len()
        invariant
            i <= reportes@.len(),
            resultado@ == ordena_reportes(reportes@.take(i as int)),
        decreases reportes@.len() - i,
    {
        let nuevo = reportes[i].clone();
        let ghost antes = resultado@;
        let mut j: usize = 0;
        while j < resultado.len() && resultado[j].total_vendido >= nuevo.total_vendido
            invariant
                j <= resultado@.len(),
                resultado@ == antes,
                nuevo == reportes@[i as int],
                forall|k: int|
                    0 <= k < j ==> (#[trigger] resultado@[k]).total_vendido >= nuevo.total_vendido,
            decreases resultado@.len() - j,
        {
            j += 1;
        }
        resultado.insert(j, nuevo);
        proof {
            lemma_inserta_reporte_en_posicion(antes, nuevo, j as int);
            assert(reportes@.take(i + 1).drop_last() =~= reportes@.take(i as int));
            assert(reportes@.take(i + 1).last() == reportes@[i as int]);
        }
        i += 1;
    }
    proof {
        assert(reportes@.take(reportes@.len() as int) =~= reportes@);
    }
    resultado
}

/// Los renglones están ordenados por total vendido descendente.
pub open spec fn reportes_ordenados(s: Seq<ReporteProductoVendido>) -> bool {
    forall|i: int, j: int|
        0 <= i < j < s.len() ==> (#[trigger] s[i]).total_vendido >= (#[trigger] s[j]).total_vendido
}

/// La inserción estable de renglones respeta una cota superior de total.
proof fn lemma_inserta_reporte_cota(
    s: Seq<ReporteProductoVendido>,
    r: ReporteProductoVendido,
    cota: u32,
)
    requires
        forall|k: int| 0 <= k < s.len() ==> (#[trigger] s[k]).total_vendido <= cota,
        r.total_vendido <= cota,
    ensures
        forall|k: int|
            0 <= k < inserta_reporte(s, r).len() ==> (#[trigger] inserta_reporte(
                s,
                r,
            )[k]).total_vendido <= cota,
    decreases s.len(),
{
    let t = inserta_reporte(s, r);
    if s.len() > 0 && s[0].total_vendido >= r.total_vendido {
        assert forall|k: int|
            0 <= k < s.drop_first().len() implies (#[trigger] s.drop_first()[k]).total_vendido
            <= cota by {
            assert(s.drop_first()[k] == s[k + 1]);
        }
        lemma_inserta_reporte_cota(s.drop_first(), r, cota);
        let resto = inserta_reporte(s.drop_first(), r);
        assert forall|k: int| 0 <= k < t.len() implies (#[trigger] t[k]).total_vendido <= cota by {
            if k > 0 {
                assert(t[k] == resto[k - 1]);
            }
        }
    } else if s.len() > 0 {
        assert forall|k: int| 0 <= k < t.len() implies (#[trigger] t[k]).total_vendido <= cota by {
            if k > 0 {
                assert(t[k] == s[k - 1]);
            }
        }
    }
}

/// Insertar un renglón en una secuencia ordenada la deja ordenada.
proof fn lemma_inserta_reporte_ordenada(s: Seq<ReporteProductoVendido>, r: ReporteProductoVendido)
    requires
        reportes_ordenados(s),
    ensures
        reportes_ordenados(inserta_reporte(s, r)),
    decreases s.len(),
{
    let t = inserta_reporte(s, r);
    if s.len() == 0 {
    } else if s[0].total_vendido >= r.total_vendido {
        assert forall|i: int, j: int|
            0 <= i < j < s.drop_first().len() implies (
            #[trigger] s.drop_first()[i]).total_vendido >= (
            #[trigger] s.drop_first()[j]).total_vendido by {
            assert(s.drop_first()[i] == s[i + 1]);
            assert(s.drop_first()[j] == s[j + 1]);
        }
        lemma_inserta_reporte_ordenada(s.drop_first(), r);
        assert forall|k: int|
            0 <= k < s.drop_first().len() implies (#[trigger] s.drop_first()[k]).total_vendido
            <= s[0].total_vendido by {
            assert(s.drop_first()[k] == s[k + 1]);
        }
        lemma_inserta_reporte_cota(s.drop_first(), r, s[0].total_vendido);
        let resto = inserta_reporte(s.drop_first(), r);
        assert forall|i: int, j: int|
            0 <= i < j < t.len() implies (#[trigger] t[i]).total_vendido
            >= (#[trigger] t[j]).total_vendido by {
            if i == 0 {
                assert(t[j] == resto[j - 1]);
            } else {
                assert(t[i] == resto[i - 1]);
                assert(t[j] == resto[j - 1]);
            }
        }
    } else {
        assert forall|i: int, j: int|
            0 <= i < j < t.len() implies (#[trigger] t[i]).total_vendido
            >= (#[trigger] t[j]).total_vendido by {
            if i == 0 {
                assert(t[j] == s[j - 1]);
                if j > 1 {
                    assert(s[0].total_vendido >= s[j - 1].total_vendido);
                }
            } else {
                assert(t[i] == s[i - 1]);
                assert(t[j] == s[j - 1]);
            }
        }
    }
}

/// El ordenamiento estable de renglones produce una secuencia ordenada.
pub proof fn lemma_ordena_reportes_ordenada(s: Seq<ReporteProductoVendido>)
    ensures
        reportes_ordenados(ordena_reportes(s)),
    decreases s.len(),
{
    if s.len() > 0 {
        lemma_ordena_reportes_ordenada(s.drop_last());
        lemma_inserta_reporte_ordenada(ordena_reportes(s.drop_last()), s.last());
    }
}

/// La inserción estable sólo contiene el renglón nuevo y los existentes.
proof fn lemma_inserta_reporte_pertenece(s: Seq<ReporteProductoVendido>, r: ReporteProductoVendido)
    ensures
        forall|k: int|
            0 <= k < inserta_reporte(s, r).len() ==> (#[trigger] inserta_reporte(s, r)[k] == r
                || exists|k0: int| 0 <= k0 < s.len() && inserta_reporte(s, r)[k] == #[trigger] s[k0]),
    decreases s.len(),
{
    let t = inserta_reporte(s, r);
    if s.len() == 0 {
    } else if s[0].total_vendido >= r.total_vendido {
        lemma_inserta_reporte_pertenece(s.drop_first(), r);
        let resto = inserta_reporte(s.drop_first(), r);
        assert forall|k: int|
            0 <= k < t.len() implies (#[trigger] t[k] == r || exists|k0: int|
            0 <= k0 < s.len() && t[k] == #[trigger] s[k0]) by {
            if k == 0 {
                assert(t[0] == s[0]);
            } else {
                assert(t[k] == resto[k - 1]);
                if resto[k - 1] != r {
                    let k0 = choose|k0: int|
                        0 <= k0 < s.drop_first().len() && resto[k - 1] == #[trigger] s.drop_first()[k0];
                    assert(t[k] == s[k0 + 1]);
                }
            }
        }
    } else {
        assert forall|k: int|
            0 <= k < t.len() implies (#[trigger] t[k] == r || exists|k0: int|
            0 <= k0 < s.len() && t[k] == #[trigger] s[k0]) by {
            if k > 0 {
                assert(t[k] == s[k - 1]);
            }
        }
    }
}

/// El ordenamiento estable sólo reordena: cada renglón viene de la entrada.
pub proof fn lemma_ordena_reportes_pertenece(s: Seq<ReporteProductoVendido>)
    ensures
        forall|k: int|
            0 <= k < ordena_reportes(s).len() ==> exists|k0: int|
                0 <= k0 < s.len() && #[trigger] ordena_reportes(s)[k] == s[k0],
    decreases s.len(),
{
    if s.len() > 0 {
        lemma_ordena_reportes_pertenece(s.drop_last());
        lemma_inserta_reporte_pertenece(ordena_reportes(s.drop_last()), s.last());
        let previo = ordena_reportes(s.drop_last());
        let t = ordena_reportes(s);
        assert forall|k: int| 0 <= k < t.len() implies exists|k0: int|
            0 <= k0 < s.len() && #[trigger] t[k] == s[k0] by {
            if t[k] == s.last() {
                assert(t[k] == s[s.len() - 1]);
            } else {
                let k1 = choose|k1: int| 0 <= k1 < previo.len() && t[k] == #[trigger] previo[k1];
                let k0 = choose|k0: int|
                    0 <= k0 < s.drop_last().len() && #[trigger] previo[k1] == s.drop_last()[k0];
                assert(t[k] == s[k0]);
            }
        }
    }
}

/// Cada renglón construido lleva el nombre del primer producto con el
/// identificador de su entrada y el total acumulado de ella.
pub proof fn lemma_reportes_de_posicion(productos: Seq<Producto>, entradas: Seq<(u32, u32)>)
    ensures
        reportes_de(productos, entradas).len() == entradas.len(),
        forall|k: int|
            0 <= k < entradas.len() ==> #[trigger] reportes_de(productos, entradas)[k]
                == (ReporteProductoVendido {
                nombre_producto: productos[busca_producto(
                    productos,
                    (#[trigger] entradas[k]).0,
                )].nombre,
                total_vendido: entradas[k].1,
            }),
    decreases entradas.len(),
{
    if entradas.len() > 0 {
        lemma_reportes_de_posicion(productos, entradas.drop_last());
        assert forall|k: int|
            0 <= k < entradas.len() implies #[trigger] reportes_de(productos, entradas)[k]
            == (ReporteProductoVendido {
            nombre_producto: productos[busca_producto(productos, (#[trigger] entradas[k]).0)].nombre,
            total_vendido: entradas[k].1,
        }) by {
            if k < entradas.len() - 1 {
                assert(entradas.drop_last()[k] == entradas[k]);
                assert(reportes_de(productos, entradas)[k] == reportes_de(
                    productos,
                    entradas.drop_last(),
                )[k]);
            } else {
                assert(entradas.last() == entradas[k]);
            }
        }
    }
}

/// El renglón corresponde a un producto de la instantánea con órdenes
/// recibidas: lleva su nombre y la suma de sus cantidades recibidas.
pub open spec fn renglon_valido(
    productos: Seq<Producto>,
    ordenes: Seq<Orden>,
    r: ReporteProductoVendido,
) -> bool {
    exists|id: u32|
        busca_producto(productos, id) >= 0 && #[trigger] hay_venta_recibida(ordenes, id) && r
            == (ReporteProductoVendido {
            nombre_producto: productos[busca_producto(productos, id)].nombre,
            total_vendido: total_recibido(ordenes, id),
        })
}

/// El reporte de productos más vendidos tiene a lo sumo cinco renglones,
/// ordenados por total descendente, y cada renglón corresponde a un producto
/// de la instantánea con órdenes recibidas: lleva su nombre y la suma de las
/// cantidades recibidas de ese producto.
pub proof fn lemma_productos_mas_vendidos(productos: Seq<Producto>, ordenes: Seq<Orden>)
    ensures
        productos_mas_vendidos_spec(productos, ordenes).len() <= 5,
        reportes_ordenados(productos_mas_vendidos_spec(productos, ordenes)),
        forall|k: int|
            0 <= k < productos_mas_vendidos_spec(productos, ordenes).len() ==> renglon_valido(
                productos,
                ordenes,
                #[trigger] productos_mas_vendidos_spec(productos, ordenes)[k],
            ),
{
    let e = acumula_ventas(productos, ordenes);
    let renglones = reportes_de(productos, e);
    let ordenados = ordena_reportes(renglones);
    let top = productos_mas_vendidos_spec(productos, ordenes);
    lemma_acumula_ascendente(productos, ordenes);
    lemma_reportes_de_posicion(productos, e);
    lemma_ordena_reportes_ordenada(renglones);
    lemma_ordena_reportes_pertenece(renglones);
    assert forall|i: int, j: int|
        0 <= i < j < top.len() implies (#[trigger] top[i]).total_vendido
        >= (#[trigger] top[j]).total_vendido by {
        assert(top[i] == ordenados[i]);
        assert(top[j] == ordenados[j]);
    }
    assert forall|k: int|
        0 <= k < top.len() implies renglon_valido(productos, ordenes, #[trigger] top[k]) by {
        assert(top[k] == ordenados[k]);
        let k1 = choose|k1: int| 0 <= k1 < renglones.len() && #[trigger] ordenados[k] == renglones[k1];
        let id = e[k1].0;
        assert(renglones[k1] == (ReporteProductoVendido {
            nombre_producto: productos[busca_producto(productos, id)].nombre,
            total_vendido: e[k1].1,
        }));
        lemma_busca_entrada(e, id);
        let j = busca_entrada(e, id);
        assert(j >= 0) by {
            if j < 0 {
                assert(e[k1].0 != id);
            }
        }
        assert(j == k1) by {
            assert(e[j].0 == id);
            if j < k1 {
                assert(e[j].0 < e[k1].0);
            } else if k1 < j {
                assert(e[k1].0 < e[j].0);
            }
        }
        lemma_acumula_valor(productos, ordenes, id);
        assert(busca_producto(productos, id) >= 0) by {
            if busca_producto(productos, id) < 0 {
                assert(busca_entrada(e, id) < 0);
            }
        }
        assert(hay_venta_recibida(ordenes, id));
        assert(e[k1].1 == total_recibido(ordenes, id));
        assert(busca_producto(productos, id) >= 0 && hay_venta_recibida(ordenes, id) && top[k]
            == (ReporteProductoVendido {
            nombre_producto: productos[busca_producto(productos, id)].nombre,
            total_vendido: total_recibido(ordenes, id),
        }));
        assert(renglon_valido(productos, ordenes, top[k]));
    }
}

/// Los productos más vendidos: totales por producto de las órdenes
/// recibidas, con nombre resuelto contra la instantánea de productos,
/// ordenados por total descendente y recortados a cinco.
pub open spec fn productos_mas_vendidos_spec(
    productos: Seq<Producto>,
    ordenes: Seq<Orden>,
) -> Seq<ReporteProductoVendido> {
    primeros(ordena_reportes(reportes_de(productos, acumula_ventas(productos, ordenes))), 5)
}

/// Cantidad de órdenes en las que la dirección participa como compradora o
/// vendedora; cada orden cuenta a lo sumo una vez.
pub open spec fn cuenta_ordenes_de(ordenes: Seq<Orden>, usuario: AccountId) -> int
    decreases ordenes.len(),
{
    if ordenes.len() == 0 {
        0
    } else {
        cuenta_ordenes_de(ordenes.drop_last(), usuario) + if ordenes.last().comprador == usuario
            || ordenes.last().vendedor == usuario {
            1int
        } else {
            0int
        }
    }
}

/// La cuenta de órdenes nunca supera el largo de la instantánea.
pub proof fn lemma_cuenta_acotada(ordenes: Seq<Orden>, usuario: AccountId)
    ensures
        0 <= cuenta_ordenes_de(ordenes, usuario) <= ordenes.len(),
    decreases ordenes.len(),
{
    if ordenes.len() > 0 {
        lemma_cuenta_acotada(ordenes.drop_last(), usuario);
    }
}

/// Puerto de lectura del marketplace: entrega las instantáneas completas
/// sobre las que trabaja la capa de reportes. El motor lo implementa en
/// proceso; un despliegue remoto puede implementarlo sobre su transporte.
pub trait MarketplaceTrait {
    fn obtener_todos_los_productos(&self) -> Vec<Producto>;

    fn obtener_todas_las_ordenes(&self) -> Vec<Orden>;

    fn obtener_todos_los_usuarios(&self) -> Vec<Usuario>;
}

impl MarketplaceTrait for Marketplace {
    fn obtener_todos_los_productos(&self) -> Vec<Producto> {
        Marketplace::obtener_todos_los_productos(self)
    }

    fn obtener_todas_las_ordenes(&self) -> Vec<Orden> {
        Marketplace::obtener_todas_las_ordenes(self)
    }

    fn obtener_todos_los_usuarios(&self) -> Vec<Usuario> {
        Marketplace::obtener_todos_los_usuarios(self)
    }
}

/// Vista de reportes: guarda la dirección del marketplace consultado; las
/// instantáneas llegan como argumentos a cada consulta.
pub struct ReportesView {
    pub marketplace_contract: AccountId,
}

impl ReportesView {
    /// Constructor: fija la dirección del marketplace a consultar.
    pub fn nuevo(direccion_marketplace: AccountId) -> (r: Self)
        ensures
            r.marketplace_contract == direccion_marketplace,
    {
        Self { marketplace_contract: direccion_marketplace }
    }

    /// Dirección del marketplace asociado.
    pub fn obtener_marketplace(&self) -> (r: AccountId)
        ensures
            r == self.marketplace_contract,
    {
        self.marketplace_contract
    }

    /// Ordena la instantánea por reputación como vendedor descendente, deja
    /// los roles que venden y toma los primeros cinco.
    pub fn filtrar_top_5_vendedores(usuarios: Vec<Usuario>) -> (r: Vec<Usuario>)
        ensures
            r@ == top_5_vendedores_spec(usuarios@),
    {
        let ordenados = ordenar_usuarios(&usuarios, true);
        let filtrados = filtrar_usuarios_exec(&ordenados, true);
        primeros_5_usuarios(filtrados)
    }

    /// Los cinco vendedores con mayor reputación de la instantánea.
    pub fn top_5_vendedores(&self, usuarios: Vec<Usuario>) -> (r: Vec<Usuario>)
        ensures
            r@ == top_5_vendedores_spec(usuarios@),
    {
        Self::filtrar_top_5_vendedores(usuarios)
    }

    /// Ordena la instantánea por reputación como comprador descendente, deja
    /// los roles que compran y toma los primeros cinco.
    pub fn filtrar_top_5_compradores(usuarios: Vec<Usuario>) -> (r: Vec<Usuario>)
        ensures
            r@ == top_5_compradores_spec(usuarios@),
    {
        let ordenados = ordenar_usuarios(&usuarios, false);
        let filtrados = filtrar_usuarios_exec(&ordenados, false);
        primeros_5_usuarios(filtrados)
    }

    /// Los cinco compradores con mayor reputación de la instantánea.
    pub fn top_5_compradores(&self, usuarios: Vec<Usuario>) -> (r: Vec<Usuario>)
        ensures
            r@ == top_5_compradores_spec(usuarios@),
    {
        Self::filtrar_top_5_compradores(usuarios)
    }

    /// Acumula por producto las cantidades de las órdenes recibidas, resuelve
    /// los nombres, ordena por total descendente y recorta a cinco.
    pub fn calcular_productos_mas_vendidos(
        productos: Vec<Producto>,
        ordenes: Vec<Orden>,
    ) -> (r: Vec<ReporteProductoVendido>)
        ensures
            r@ == productos_mas_vendidos_spec(productos@, ordenes@),
    {
        let mut entradas: Vec<(u32, u32)> = Vec::new();
        let mut i: usize = 0;
        while i < ordenes.len()
            invariant
                i <= ordenes@.len(),
                entradas@ == acumula_ventas(productos@, ordenes@.take(i as int)),
                forall|k: int|
                    0 <= k < entradas@.len() ==> busca_producto(
                        productos@,
                        (#[trigger] entradas@[k]).0,
                    ) >= 0,
            decreases ordenes@.len() - i,
        {
            proof {
                assert(ordenes@.take(i + 1).drop_last() =~= ordenes@.take(i as int));
                assert(ordenes@.take(i + 1).last() == ordenes@[i as int]);
            }
            let orden = ordenes[i];
            let es_recibida = match orden.estado {
                EstadoOrden::Recibida => true,
                _ => false,
            };
            if es_recibida {
                match buscar_producto_exec(&productos, orden.producto_id) {
                    Some(_) => {
                        let ghost antes = entradas@;
                        agregar_venta_exec(&mut entradas, orden.producto_id, orden.cantidad);
                        proof {
                            assert forall|k: int|
                                0 <= k < entradas@.len() implies busca_producto(
                                productos@,
                                (#[trigger] entradas@[k]).0,
                            ) >= 0 by {
                                if entradas@[k].0 != orden.producto_id {
                                    let k0 = choose|k0: int|
                                        0 <= k0 < antes.len() && (#[trigger] antes[k0]).0
                                            == entradas@[k].0;
                                    assert(busca_producto(productos@, antes[k0].0) >= 0);
                                }
                            }
                        }
                    },
                    None => {},
                }
            }
            i += 1;
        }
        proof {
            assert(ordenes@.take(ordenes@.len() as int) =~= ordenes@);
        }
        let renglones = reportes_desde_entradas(&productos, &entradas);
        let ordenados = ordenar_reportes(&renglones);
        let mut recortado = ordenados;
        recortado.truncate(5);
        recortado
    }

    /// Los productos más vendidos de la instantánea, según las órdenes
    /// recibidas, con a lo sumo cinco renglones.
    pub fn productos_mas_vendidos(
        &self,
        productos: Vec<Producto>,
        ordenes: Vec<Orden>,
    ) -> (r: Vec<ReporteProductoVendido>)
        ensures
            r@ == productos_mas_vendidos_spec(productos@, ordenes@),
    {
        Self::calcular_productos_mas_vendidos(productos, ordenes)
    }

    /// Cuenta las órdenes donde la dirección participa, como compradora o
    /// como vendedora.
    pub fn calcular_ordenes_usuario(ordenes: Vec<Orden>, usuario: AccountId) -> (r: u32)
        requires
            ordenes@.len() <= u32::MAX,
        ensures
            r == cuenta_ordenes_de(ordenes@, usuario),
    {
        let mut cuenta: u32 = 0;
        let mut i: usize = 0;
        while i < ordenes.len()
            invariant
                i <= ordenes@.len(),
                ordenes@.len() <= u32::MAX,
                cuenta == cuenta_ordenes_de(ordenes@.take(i as int), usuario),
            decreases ordenes@.len() - i,
        {
            proof {
                assert(ordenes@.take(i + 1).drop_last() =~= ordenes@.take(i as int));
                assert(ordenes@.take(i + 1).last() == ordenes@[i as int]);
                lemma_cuenta_acotada(ordenes@.take(i as int), usuario);
            }
            if ordenes[i].comprador == usuario || ordenes[i].vendedor == usuario {
                cuenta += 1;
            }
            i += 1;
        }
        proof {
            assert(ordenes@.take(ordenes@.len() as int) =~= ordenes@);
        }
        cuenta
    }

    /// Cantidad total de órdenes asociadas a la dirección en la instantánea.
    pub fn obtener_total_ordenes_usuario(&self, ordenes: Vec<Orden>, usuario: AccountId) -> (r: u32)
        requires
            ordenes@.len() <= u32::MAX,
        ensures
            r == cuenta_ordenes_de(ordenes@, usuario),
    {
        Self::calcular_ordenes_usuario(ordenes, usuario)
    }
}

} // verus!
