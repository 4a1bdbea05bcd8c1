use marketplace::AccountId;
use marketplace::EstadoOrden;
use marketplace::Marketplace;
use marketplace::RolUsuario;
use marketplace::SistemaError;

fn alice() -> AccountId {
    AccountId::from([0x01; 32])
}

fn bob() -> AccountId {
    AccountId::from([0x02; 32])
}

fn charlie() -> AccountId {
    AccountId::from([0x03; 32])
}

/// Marketplace con un vendedor ya registrado bajo la cuenta [0x10; 32].
fn setup_contract_con_vendedor() -> (Marketplace, AccountId) {
    let mut contrato = Marketplace::nuevo();
    let vendedor = AccountId::from([0x10; 32]);
    contrato
        .registrar_usuario(vendedor, RolUsuario::Vendedor)
        .unwrap();
    (contrato, vendedor)
}

#[test]
fn registrar_usuario_comprador_ok() {
    let mut contrato = Marketplace::nuevo();
    let maria = alice();

    let resultado = contrato.registrar_usuario(maria, RolUsuario::Comprador);
    assert_eq!(resultado, Ok(()));

    let usuario_registrado = contrato.obtener_usuario(maria);
    assert!(usuario_registrado.is_some());

    let usuario = usuario_registrado.unwrap();
    assert_eq!(usuario.rol, RolUsuario::Comprador);
    assert_eq!(usuario.reputacion_como_comprador, 0);
    assert_eq!(usuario.reputacion_como_vendedor, 0);
}

#[test]
fn registrar_usuario_vendedor_ok() {
    let mut contrato = Marketplace::nuevo();
    let juan = bob();

    let resultado = contrato.registrar_usuario(juan, RolUsuario::Vendedor);
    assert_eq!(resultado, Ok(()));

    let usuario_registrado = contrato.obtener_usuario(juan);
    assert!(usuario_registrado.is_some());

    let usuario = usuario_registrado.unwrap();
    assert_eq!(usuario.rol, RolUsuario::Vendedor);
    assert_eq!(usuario.reputacion_como_comprador, 0);
    assert_eq!(usuario.reputacion_como_vendedor, 0);
}

#[test]
fn registrar_usuario_ambos_ok() {
    let mut contrato = Marketplace::nuevo();
    let carlos = charlie();

    let resultado = contrato.registrar_usuario(carlos, RolUsuario::Ambos);
    assert_eq!(resultado, Ok(()));

    let usuario_registrado = contrato.obtener_usuario(carlos);
    assert!(usuario_registrado.is_some());

    let usuario = usuario_registrado.unwrap();
    assert_eq!(usuario.rol, RolUsuario::Ambos);
    assert_eq!(usuario.reputacion_como_comprador, 0);
    assert_eq!(usuario.reputacion_como_vendedor, 0);
}

#[test]
fn registrar_usuario_duplicado_falla() {
    let mut contrato = Marketplace::nuevo();

    let _ = contrato.registrar_usuario(alice(), RolUsuario::Comprador);

    let resultado = contrato.registrar_usuario(alice(), RolUsuario::Vendedor);
    assert_eq!(resultado, Err(SistemaError::UsuarioExistente));
}

#[test]
fn modificar_rol_usuario_comprador_a_vendedor_ok() {
    let (mut contrato, _) = setup_contract_con_vendedor();

    let maria = alice();
    let _ = contrato.registrar_usuario(maria, RolUsuario::Comprador);

    let resultado = contrato.modificar_rol_usuario(maria, RolUsuario::Vendedor);
    assert!(resultado.is_ok());

    let usuario = contrato.obtener_usuario(maria).unwrap();
    assert_eq!(usuario.rol, RolUsuario::Vendedor);
}

#[test]
fn modificar_rol_usuario_vendedor_a_comprador_ok() {
    let (mut contrato, _) = setup_contract_con_vendedor();

    let juan = bob();
    let _ = contrato.registrar_usuario(juan, RolUsuario::Vendedor);

    let resultado = contrato.modificar_rol_usuario(juan, RolUsuario::Comprador);
    assert!(resultado.is_ok());

    let usuario = contrato.obtener_usuario(juan).unwrap();
    assert_eq!(usuario.rol, RolUsuario::Comprador);
}

#[test]
fn modificar_rol_usuario_ambos_a_comprador_ok() {
    let (mut contrato, _) = setup_contract_con_vendedor();

    let carlos = charlie();
    let _ = contrato.registrar_usuario(carlos, RolUsuario::Ambos);

    let resultado = contrato.modificar_rol_usuario(carlos, RolUsuario::Comprador);
    assert!(resultado.is_ok());

    let usuario = contrato.obtener_usuario(carlos).unwrap();
    assert_eq!(usuario.rol, RolUsuario::Comprador);
}

#[test]
fn emite_evento_rol_actualizado() {
    let mut c = Marketplace::nuevo();
    let maria = alice();

    c.registrar_usuario(maria, RolUsuario::Comprador).unwrap();

    c.modificar_rol_usuario(maria, RolUsuario::Vendedor).unwrap();
    let eventos = c.obtener_eventos();
    assert!(!eventos.is_empty(), "Debe emitirse al menos un evento");
}

#[test]
fn modificar_rol_usuario_no_registrado_falla() {
    let mut contrato = Marketplace::nuevo();

    let caller = AccountId::from([0x05; 32]);

    let resultado = contrato.modificar_rol_usuario(caller, RolUsuario::Vendedor);
    assert!(matches!(resultado, Err(SistemaError::UsuarioNoRegistrado)));
}

#[test]
fn modificar_rol_usuario_mismo_rol_falla() {
    let (mut contrato, _) = setup_contract_con_vendedor();

    let maria = alice();
    let _ = contrato.registrar_usuario(maria, RolUsuario::Comprador);

    let resultado = contrato.modificar_rol_usuario(maria, RolUsuario::Comprador);
    assert!(matches!(resultado, Err(SistemaError::NoEsRolCorrecto)));
}

#[test]
fn modificar_rol_usuario_no_puede_cambiar_a_vendedor_falla() {
    let (mut contrato, _) = setup_contract_con_vendedor();

    let juan = bob();
    let _ = contrato.registrar_usuario(juan, RolUsuario::Vendedor);

    let resultado = contrato.modificar_rol_usuario(juan, RolUsuario::Vendedor);
    assert!(matches!(resultado, Err(SistemaError::NoEsRolCorrecto)));
}

#[test]
fn modificar_rol_usuario_no_puede_cambiar_a_comprador_falla() {
    let (mut contrato, _) = setup_contract_con_vendedor();

    let maria = alice();
    let _ = contrato.registrar_usuario(maria, RolUsuario::Comprador);

    let resultado = contrato.modificar_rol_usuario(maria, RolUsuario::Comprador);
    assert!(matches!(resultado, Err(SistemaError::NoEsRolCorrecto)));
}

#[test]
fn publicar_producto_ok() {
    let (mut contrato, vendedor) = setup_contract_con_vendedor();

    let resultado = contrato.publicar_producto(
        vendedor,
        "Celular".to_string(),
        "Un buen celular".to_string(),
        1000,
        5,
        "Tecnología".to_string(),
    );

    assert!(resultado.is_ok());
    assert_eq!(contrato.obtener_cantidad_productos(), 1);

    let producto = &contrato.obtener_todos_los_productos()[0];
    assert_eq!(producto.nombre, "Celular");
    assert_eq!(producto.precio, 1000);
}

#[test]
fn publicar_producto_no_registrado_falla() {
    let mut contrato = Marketplace::nuevo();

    let caller = AccountId::from([0x02; 32]);

    let resultado = contrato.publicar_producto(
        caller,
        "Producto".to_string(),
        "Sin registro".to_string(),
        500,
        1,
        "Otros".to_string(),
    );

    assert!(matches!(resultado, Err(SistemaError::UsuarioNoRegistrado)));
}

#[test]
fn publicar_producto_no_es_vendedor_falla() {
    let mut contrato = Marketplace::nuevo();

    let caller = AccountId::from([0x03; 32]);
    contrato
        .registrar_usuario(caller, RolUsuario::Comprador)
        .unwrap();

    let resultado = contrato.publicar_producto(
        caller,
        "Producto".to_string(),
        "No autorizado".to_string(),
        100,
        2,
        "Otros".to_string(),
    );

    assert!(matches!(resultado, Err(SistemaError::NoEsRolCorrecto)));
}

#[test]
fn publicar_producto_cantidad_cero_falla() {
    let (mut contrato, vendedor) = setup_contract_con_vendedor();

    let resultado = contrato.publicar_producto(
        vendedor,
        "Producto".to_string(),
        "Cantidad cero".to_string(),
        100,
        0,
        "Otros".to_string(),
    );

    assert!(matches!(resultado, Err(SistemaError::CantidadInsuficiente)));
}

#[test]
fn listar_interno_ok_para_vendedor() {
    let (mut c, caller) = setup_contract_con_vendedor();

    c.publicar_producto(caller, "P1".into(), "D".into(), 100, 5, "Cat".into())
        .unwrap();
    c.publicar_producto(caller, "P2".into(), "D".into(), 200, 3, "Cat".into())
        .unwrap();

    let v = c.listar_productos_interno(caller).unwrap();
    assert_eq!(v.len(), 2);
    assert!(v.iter().all(|p| p.vendedor == caller));
}

#[test]
fn listar_interno_falla_si_no_registrado() {
    let c = Marketplace::nuevo();
    let no_reg = AccountId::from([9u8; 32]);

    let res = c.listar_productos_interno(no_reg);
    assert!(matches!(res, Err(SistemaError::UsuarioNoRegistrado)));
}

#[test]
fn listar_interno_falla_si_no_es_vendedor() {
    let mut c = Marketplace::nuevo();

    let comprador = AccountId::from([2u8; 32]);
    c.registrar_usuario(comprador, RolUsuario::Comprador).unwrap();

    let res = c.listar_productos_interno(comprador);
    assert!(matches!(res, Err(SistemaError::NoEsRolCorrecto)));
}

#[test]
fn listar_interno_falla_si_no_tiene_productos() {
    let (c, caller) = setup_contract_con_vendedor();

    let res = c.listar_productos_interno(caller);
    assert!(matches!(res, Err(SistemaError::ProductosVacios)));
}

#[test]
fn crear_orden_ok() {
    let (mut contrato, vendedor) = setup_contract_con_vendedor();

    let _ = contrato.publicar_producto(
        vendedor,
        "Laptop".to_string(),
        "Una laptop potente".to_string(),
        2000,
        10,
        "Tecnología".to_string(),
    );

    let _ = contrato.registrar_usuario(bob(), RolUsuario::Comprador);

    let resultado = contrato.crear_orden(bob(), 0, 2);

    assert!(resultado.is_ok());
    let orden_id = resultado.unwrap();
    assert_eq!(contrato.obtener_cantidad_ordenes(), 1);

    let orden = &contrato.obtener_todas_las_ordenes()[0];
    assert_eq!(orden.id, orden_id);
    assert_eq!(orden.cantidad, 2);
    assert_eq!(orden.estado, EstadoOrden::Pendiente);
}

#[test]
fn crear_orden_no_registrado_falla() {
    let mut contrato = Marketplace::nuevo();

    let caller = AccountId::from([0x04; 32]);

    let resultado = contrato.crear_orden(caller, 0, 1);

    assert!(matches!(resultado, Err(SistemaError::UsuarioNoRegistrado)));
}

#[test]
fn verificar_registro_antes_de_crear_orden() {
    let (mut contrato, vendedor) = setup_contract_con_vendedor();

    let _ = contrato.publicar_producto(
        vendedor,
        "Producto Test".to_string(),
        "Descripción Test".to_string(),
        1000,
        10,
        "Test".to_string(),
    );

    let nuevo_usuario = AccountId::from([0x99; 32]);

    assert!(!contrato.esta_registrado(nuevo_usuario));
    assert!(contrato.obtener_usuario(nuevo_usuario).is_none());

    let resultado = contrato.crear_orden(nuevo_usuario, 0, 1);
    assert!(matches!(resultado, Err(SistemaError::UsuarioNoRegistrado)));

    let _ = contrato.registrar_usuario(nuevo_usuario, RolUsuario::Comprador);

    assert!(contrato.esta_registrado(nuevo_usuario));
    let usuario_info = contrato.obtener_usuario(nuevo_usuario).unwrap();
    assert_eq!(usuario_info.rol, RolUsuario::Comprador);

    let resultado = contrato.crear_orden(nuevo_usuario, 0, 1);
    assert!(resultado.is_ok());
}

#[test]
fn crear_orden_no_es_comprador_falla() {
    let mut contrato = Marketplace::nuevo();

    let caller = AccountId::from([0x05; 32]);
    contrato
        .registrar_usuario(caller, RolUsuario::Vendedor)
        .unwrap();

    let _ = contrato.publicar_producto(
        caller,
        "Tablet".to_string(),
        "Una tablet versátil".to_string(),
        1500,
        7,
        "Tecnología".to_string(),
    );

    let resultado = contrato.crear_orden(caller, 0, 1);

    assert!(matches!(resultado, Err(SistemaError::NoEsRolCorrecto)));
}

#[test]
fn crear_orden_con_rol_ambos_ok() {
    let (mut contrato, vendedor) = setup_contract_con_vendedor();

    let _ = contrato.publicar_producto(
        vendedor,
        "Producto Test".to_string(),
        "Descripción Test".to_string(),
        1000,
        10,
        "Test".to_string(),
    );

    let carlos = charlie();
    let _ = contrato.registrar_usuario(carlos, RolUsuario::Ambos);

    let resultado = contrato.crear_orden(carlos, 0, 1);
    assert!(resultado.is_ok());
}

#[test]
fn crear_orden_cantidad_insuficiente_falla() {
    let (mut contrato, vendedor) = setup_contract_con_vendedor();

    let _ = contrato.publicar_producto(
        vendedor,
        "Smartwatch".to_string(),
        "Un smartwatch elegante".to_string(),
        500,
        2,
        "Tecnología".to_string(),
    );

    let juan = bob();
    let _ = contrato.registrar_usuario(juan, RolUsuario::Comprador);

    let resultado = contrato.crear_orden(juan, 0, 3);

    assert!(matches!(resultado, Err(SistemaError::StockInsuficiente)));
}

#[test]
fn crear_orden_cantidad_cero_falla() {
    let (mut contrato, vendedor) = setup_contract_con_vendedor();

    let _ = contrato.publicar_producto(
        vendedor,
        "Producto Test".to_string(),
        "Descripción Test".to_string(),
        1000,
        10,
        "Test".to_string(),
    );

    let juan = bob();
    let _ = contrato.registrar_usuario(juan, RolUsuario::Comprador);

    let resultado = contrato.crear_orden(juan, 0, 0);

    assert!(matches!(resultado, Err(SistemaError::CantidadInsuficiente)));
}

#[test]
fn crear_orden_descuenta_stock() {
    let (mut contrato, vendedor) = setup_contract_con_vendedor();

    let _ = contrato.publicar_producto(
        vendedor,
        "Auriculares".to_string(),
        "Auriculares inalámbricos".to_string(),
        800,
        10,
        "Tecnología".to_string(),
    );

    let juan = bob();
    let _ = contrato.registrar_usuario(juan, RolUsuario::Comprador);

    let resultado = contrato.crear_orden(juan, 0, 3);

    assert!(resultado.is_ok());
    assert_eq!(contrato.obtener_cantidad_ordenes(), 1);

    let producto = &contrato.obtener_todos_los_productos()[0];
    assert_eq!(producto.cantidad, 7);
}

#[test]
fn marcar_orden_como_enviada_ok() {
    let (mut contrato, vendedor) = setup_contract_con_vendedor();

    let _ = contrato.publicar_producto(
        vendedor,
        "Producto Test".to_string(),
        "Descripción Test".to_string(),
        1000,
        10,
        "Test".to_string(),
    );

    let juan = bob();
    let _ = contrato.registrar_usuario(juan, RolUsuario::Comprador);

    let resultado = contrato.crear_orden(juan, 0, 1);
    assert!(resultado.is_ok());
    let orden_id = resultado.unwrap();

    let resultado = contrato.marcar_orden_como_enviada(vendedor, orden_id);
    assert!(resultado.is_ok());

    let orden = &contrato.obtener_todas_las_ordenes()[orden_id as usize];
    assert_eq!(orden.estado, EstadoOrden::Enviada);
}

#[test]
fn marcar_orden_como_enviada_usuario_no_registrado_falla() {
    let (mut contrato, vendedor) = setup_contract_con_vendedor();

    let _ = contrato.publicar_producto(
        vendedor,
        "Producto Test".to_string(),
        "Descripción Test".to_string(),
        1000,
        10,
        "Test".to_string(),
    );

    let _ = contrato.registrar_usuario(bob(), RolUsuario::Comprador);

    let resultado = contrato.crear_orden(bob(), 0, 1);
    assert!(resultado.is_ok());
    let orden_id = resultado.unwrap();

    let usuario_no_registrado = AccountId::from([0x99; 32]);

    let resultado = contrato.marcar_orden_como_enviada(usuario_no_registrado, orden_id);
    assert!(matches!(resultado, Err(SistemaError::UsuarioNoRegistrado)));
}

#[test]
fn marcar_como_recibida_usuario_no_registrado_falla() {
    let (mut contrato, vendedor) = setup_contract_con_vendedor();

    let _ = contrato.publicar_producto(
        vendedor,
        "Producto Test".to_string(),
        "Descripción Test".to_string(),
        1000,
        10,
        "Test".to_string(),
    );

    let _ = contrato.registrar_usuario(bob(), RolUsuario::Comprador);

    let resultado = contrato.crear_orden(bob(), 0, 1);
    assert!(resultado.is_ok());
    let orden_id = resultado.unwrap();

    let usuario_no_registrado = AccountId::from([0x99; 32]);

    let resultado = contrato.marcar_como_recibida(usuario_no_registrado, orden_id);
    assert!(matches!(resultado, Err(SistemaError::UsuarioNoRegistrado)));
}

#[test]
fn marcar_orden_como_enviada_usuario_no_es_vendedor_falla() {
    let (mut contrato, vendedor) = setup_contract_con_vendedor();

    let _ = contrato.publicar_producto(
        vendedor,
        "Producto Test".to_string(),
        "Descripción Test".to_string(),
        1000,
        10,
        "Test".to_string(),
    );

    let juan = bob();
    let _ = contrato.registrar_usuario(juan, RolUsuario::Comprador);

    let resultado = contrato.crear_orden(juan, 0, 1);
    assert!(resultado.is_ok());
    let orden_id = resultado.unwrap();

    let carlos = charlie();
    let _ = contrato.registrar_usuario(carlos, RolUsuario::Vendedor);

    let resultado = contrato.marcar_orden_como_enviada(carlos, orden_id);
    assert!(matches!(resultado, Err(SistemaError::NoEsRolCorrecto)));
}

#[test]
fn marcar_orden_como_enviada_orden_inexistente_falla() {
    let (mut contrato, vendedor) = setup_contract_con_vendedor();

    let resultado = contrato.marcar_orden_como_enviada(vendedor, 999);
    assert!(matches!(resultado, Err(SistemaError::OrdenNoExiste)));
}

#[test]
fn marcar_como_recibida_orden_inexistente_falla() {
    let (mut contrato, vendedor) = setup_contract_con_vendedor();

    let resultado = contrato.marcar_como_recibida(vendedor, 999);
    assert!(matches!(resultado, Err(SistemaError::OrdenNoExiste)));
}

#[test]
fn marcar_como_recibida_ok() {
    let (mut contrato, vendedor) = setup_contract_con_vendedor();

    let _ = contrato.publicar_producto(
        vendedor,
        "Producto Test".to_string(),
        "Descripción Test".to_string(),
        1000,
        10,
        "Test".to_string(),
    );

    let juan = bob();
    let _ = contrato.registrar_usuario(juan, RolUsuario::Comprador);

    let resultado = contrato.crear_orden(juan, 0, 1);
    assert!(resultado.is_ok());
    let orden_id = resultado.unwrap();

    let resultado = contrato.marcar_orden_como_enviada(vendedor, orden_id);
    assert!(resultado.is_ok());

    let resultado = contrato.marcar_como_recibida(juan, orden_id);
    assert!(resultado.is_ok());

    let orden = &contrato.obtener_todas_las_ordenes()[orden_id as usize];
    assert_eq!(orden.estado, EstadoOrden::Recibida);
}

#[test]
fn marcar_como_recibida_estado_pendiente_falla() {
    let (mut contrato, vendedor) = setup_contract_con_vendedor();

    let _ = contrato.publicar_producto(
        vendedor,
        "Producto Test".to_string(),
        "Descripción Test".to_string(),
        1000,
        10,
        "Test".to_string(),
    );

    let juan = bob();
    let _ = contrato.registrar_usuario(juan, RolUsuario::Comprador);

    let resultado = contrato.crear_orden(juan, 0, 1);
    assert!(resultado.is_ok());
    let orden_id = resultado.unwrap();

    let orden = &contrato.obtener_todas_las_ordenes()[orden_id as usize];
    assert_eq!(orden.estado, EstadoOrden::Pendiente);

    let resultado = contrato.marcar_como_recibida(juan, orden_id);
    assert!(matches!(resultado, Err(SistemaError::EstadoInvalido)));
}

#[test]
fn calificar_vendedor_ok() {
    let (mut contrato, vendedor) = setup_contract_con_vendedor();

    let _ = contrato.publicar_producto(
        vendedor,
        "Producto Test".to_string(),
        "Descripción Test".to_string(),
        1000,
        10,
        "Test".to_string(),
    );

    let juan = bob();
    let _ = contrato.registrar_usuario(juan, RolUsuario::Comprador);

    let resultado = contrato.crear_orden(juan, 0, 1);
    assert!(resultado.is_ok());
    let orden_id = resultado.unwrap();

    let _ = contrato.marcar_orden_como_enviada(vendedor, orden_id);
    let _ = contrato.marcar_como_recibida(juan, orden_id);

    let resultado = contrato.calificar_vendedor(juan, orden_id, 5);
    assert!(resultado.is_ok());

    let vendor = contrato.obtener_usuario(vendedor).unwrap();
    assert_eq!(vendor.reputacion_como_vendedor, 5);
}

#[test]
fn calificar_vendedor_calificacion_invalida_falla() {
    let (mut contrato, vendedor) = setup_contract_con_vendedor();

    let _ = contrato.publicar_producto(
        vendedor,
        "Producto Test".to_string(),
        "Descripción Test".to_string(),
        1000,
        10,
        "Test".to_string(),
    );

    let juan = bob();
    let _ = contrato.registrar_usuario(juan, RolUsuario::Comprador);

    let resultado = contrato.crear_orden(juan, 0, 1);
    assert!(resultado.is_ok());
    let orden_id = resultado.unwrap();

    let _ = contrato.marcar_orden_como_enviada(vendedor, orden_id);
    let _ = contrato.marcar_como_recibida(juan, orden_id);

    let resultado = contrato.calificar_vendedor(juan, orden_id, 6);
    assert!(matches!(resultado, Err(SistemaError::CalificacionInvalida)));
}

#[test]
fn calificar_vendedor_dos_veces_falla() {
    let (mut contrato, vendedor) = setup_contract_con_vendedor();

    let _ = contrato.publicar_producto(
        vendedor,
        "Producto Test".to_string(),
        "Descripción Test".to_string(),
        1000,
        10,
        "Test".to_string(),
    );

    let juan = bob();
    let _ = contrato.registrar_usuario(juan, RolUsuario::Comprador);

    let resultado = contrato.crear_orden(juan, 0, 1);
    assert!(resultado.is_ok());
    let orden_id = resultado.unwrap();

    let _ = contrato.marcar_orden_como_enviada(vendedor, orden_id);
    let _ = contrato.marcar_como_recibida(juan, orden_id);

    let _ = contrato.calificar_vendedor(juan, orden_id, 5);
    let resultado = contrato.calificar_vendedor(juan, orden_id, 3);
    assert!(matches!(resultado, Err(SistemaError::YaCalificado)));
}

#[test]
fn calificar_comprador_ok() {
    let (mut contrato, vendedor) = setup_contract_con_vendedor();

    let _ = contrato.publicar_producto(
        vendedor,
        "Producto Test".to_string(),
        "Descripción Test".to_string(),
        1000,
        10,
        "Test".to_string(),
    );

    let juan = bob();
    let _ = contrato.registrar_usuario(juan, RolUsuario::Comprador);

    let resultado = contrato.crear_orden(juan, 0, 1);
    assert!(resultado.is_ok());
    let orden_id = resultado.unwrap();

    let _ = contrato.marcar_orden_como_enviada(vendedor, orden_id);
    let _ = contrato.marcar_como_recibida(juan, orden_id);

    let resultado = contrato.calificar_comprador(vendedor, orden_id, 4);
    assert!(resultado.is_ok());

    let comprador = contrato.obtener_usuario(juan).unwrap();
    assert_eq!(comprador.reputacion_como_comprador, 4);
}

#[test]
fn calificar_comprador_dos_veces_falla() {
    let (mut contrato, vendedor) = setup_contract_con_vendedor();

    let _ = contrato.publicar_producto(
        vendedor,
        "Producto Test".to_string(),
        "Descripción Test".to_string(),
        1000,
        10,
        "Test".to_string(),
    );

    let juan = bob();
    let _ = contrato.registrar_usuario(juan, RolUsuario::Comprador);

    let resultado = contrato.crear_orden(juan, 0, 1);
    assert!(resultado.is_ok());
    let orden_id = resultado.unwrap();

    let _ = contrato.marcar_orden_como_enviada(vendedor, orden_id);
    let _ = contrato.marcar_como_recibida(juan, orden_id);

    let _ = contrato.calificar_comprador(vendedor, orden_id, 4);
    let resultado = contrato.calificar_comprador(vendedor, orden_id, 3);
    assert!(matches!(resultado, Err(SistemaError::YaCalificado)));
}

#[test]
fn marcar_como_recibida_usuario_no_es_comprador_falla() {
    let (mut contrato, vendedor) = setup_contract_con_vendedor();

    let _ = contrato.publicar_producto(
        vendedor,
        "Producto Test".to_string(),
        "Descripción Test".to_string(),
        1000,
        10,
        "Test".to_string(),
    );

    let juan = bob();
    let _ = contrato.registrar_usuario(juan, RolUsuario::Comprador);

    let resultado = contrato.crear_orden(juan, 0, 1);
    assert!(resultado.is_ok());
    let orden_id = resultado.unwrap();

    let resultado = contrato.marcar_orden_como_enviada(vendedor, orden_id);
    assert!(resultado.is_ok());

    let carlos = charlie();
    let _ = contrato.registrar_usuario(carlos, RolUsuario::Comprador);

    let resultado = contrato.marcar_como_recibida(carlos, orden_id);
    assert!(matches!(resultado, Err(SistemaError::NoEsRolCorrecto)));
}

#[test]
fn flujo_completo_compra_y_calificacion_ok() {
    let (mut contrato, vendedor) = setup_contract_con_vendedor();

    let _ = contrato.publicar_producto(
        vendedor,
        "Monitor".to_string(),
        "Monitor 4K".to_string(),
        3000,
        5,
        "Electrónica".to_string(),
    );

    let juan = bob();
    let _ = contrato.registrar_usuario(juan, RolUsuario::Comprador);
    let orden_id = contrato.crear_orden(juan, 0, 1).unwrap();

    let _ = contrato.marcar_orden_como_enviada(vendedor, orden_id);
    let _ = contrato.marcar_como_recibida(juan, orden_id);

    let _ = contrato.calificar_vendedor(juan, orden_id, 5);
    let vendor = contrato.obtener_usuario(vendedor).unwrap();
    assert_eq!(vendor.reputacion_como_vendedor, 5);

    let _ = contrato.calificar_comprador(vendedor, orden_id, 4);
    let comprador = contrato.obtener_usuario(juan).unwrap();
    assert_eq!(comprador.reputacion_como_comprador, 4);
}

#[test]
fn multiples_ordenes_descuentan_stock_correctamente() {
    let (mut contrato, vendedor) = setup_contract_con_vendedor();

    let _ = contrato.publicar_producto(
        vendedor,
        "Mouse".to_string(),
        "Mouse inalámbrico".to_string(),
        500,
        10,
        "Periféricos".to_string(),
    );

    let juan = bob();
    let _ = contrato.registrar_usuario(juan, RolUsuario::Comprador);

    let _ = contrato.crear_orden(juan, 0, 3);
    assert_eq!(contrato.obtener_cantidad_ordenes(), 1);

    let _ = contrato.crear_orden(juan, 0, 2);
    assert_eq!(contrato.obtener_todos_los_productos()[0].cantidad, 5);

    let _ = contrato.crear_orden(juan, 0, 5);
    assert_eq!(contrato.obtener_todos_los_productos()[0].cantidad, 0);

    let resultado = contrato.crear_orden(juan, 0, 1);
    assert!(matches!(resultado, Err(SistemaError::StockInsuficiente)));
}

#[test]
fn calificacion_acumulada_multiples_vendedores() {
    let (mut contrato, vendedor1) = setup_contract_con_vendedor();

    let _ = contrato.publicar_producto(
        vendedor1,
        "Producto1".to_string(),
        "Desc1".to_string(),
        1000,
        5,
        "Cat1".to_string(),
    );

    let vendedor2 = AccountId::from([0x20; 32]);
    let _ = contrato.registrar_usuario(vendedor2, RolUsuario::Vendedor);
    let _ = contrato.publicar_producto(
        vendedor2,
        "Producto2".to_string(),
        "Desc2".to_string(),
        2000,
        5,
        "Cat2".to_string(),
    );

    let juan = bob();
    let _ = contrato.registrar_usuario(juan, RolUsuario::Comprador);

    let orden1 = contrato.crear_orden(juan, 0, 1).unwrap();
    let orden2 = contrato.crear_orden(juan, 1, 1).unwrap();

    let _ = contrato.marcar_orden_como_enviada(vendedor1, orden1);
    let _ = contrato.marcar_orden_como_enviada(vendedor2, orden2);

    let _ = contrato.marcar_como_recibida(juan, orden1);
    let _ = contrato.marcar_como_recibida(juan, orden2);

    let _ = contrato.calificar_vendedor(juan, orden1, 5);
    let _ = contrato.calificar_vendedor(juan, orden2, 3);

    let v1 = contrato.obtener_usuario(vendedor1).unwrap();
    let v2 = contrato.obtener_usuario(vendedor2).unwrap();
    assert_eq!(v1.reputacion_como_vendedor, 5);
    assert_eq!(v2.reputacion_como_vendedor, 3);
}

#[test]
fn cambio_rol_ambos_a_comprador_puede_comprar() {
    let (mut contrato, vendedor) = setup_contract_con_vendedor();

    let _ = contrato.publicar_producto(
        vendedor,
        "Test".to_string(),
        "Test".to_string(),
        100,
        5,
        "Test".to_string(),
    );

    let carlos = charlie();
    let _ = contrato.registrar_usuario(carlos, RolUsuario::Ambos);

    let _ = contrato.modificar_rol_usuario(carlos, RolUsuario::Comprador);

    let resultado = contrato.crear_orden(carlos, 0, 1);
    assert!(resultado.is_ok());
}

#[test]
fn vendedor_no_puede_cambiar_a_ambos_directamente() {
    let mut contrato = Marketplace::nuevo();

    let caller = AccountId::from([0x07; 32]);

    let _ = contrato.registrar_usuario(caller, RolUsuario::Vendedor);

    let resultado = contrato.modificar_rol_usuario(caller, RolUsuario::Ambos);
    assert!(matches!(resultado, Err(SistemaError::NoEsRolCorrecto)));
}

#[test]
fn comprador_no_puede_cambiar_a_ambos_directamente() {
    let mut contrato = Marketplace::nuevo();

    let caller = AccountId::from([0x08; 32]);

    let _ = contrato.registrar_usuario(caller, RolUsuario::Comprador);

    let resultado = contrato.modificar_rol_usuario(caller, RolUsuario::Ambos);
    assert!(matches!(resultado, Err(SistemaError::NoEsRolCorrecto)));
}

#[test]
fn crear_multiples_productos_incrementa_ids() {
    let (mut contrato, vendedor) = setup_contract_con_vendedor();

    let _ = contrato.publicar_producto(
        vendedor,
        "P1".to_string(),
        "D1".to_string(),
        100,
        5,
        "C1".to_string(),
    );
    let _ = contrato.publicar_producto(
        vendedor,
        "P2".to_string(),
        "D2".to_string(),
        200,
        3,
        "C2".to_string(),
    );
    let _ = contrato.publicar_producto(
        vendedor,
        "P3".to_string(),
        "D3".to_string(),
        300,
        2,
        "C3".to_string(),
    );

    let productos = contrato.obtener_todos_los_productos();
    assert_eq!(productos[0].id, 0);
    assert_eq!(productos[1].id, 1);
    assert_eq!(productos[2].id, 2);
}

#[test]
fn calificar_con_valor_cero_falla() {
    let (mut contrato, vendedor) = setup_contract_con_vendedor();

    let _ = contrato.publicar_producto(
        vendedor,
        "P".to_string(),
        "D".to_string(),
        100,
        5,
        "C".to_string(),
    );

    let juan = bob();
    let _ = contrato.registrar_usuario(juan, RolUsuario::Comprador);

    let orden_id = contrato.crear_orden(juan, 0, 1).unwrap();

    let _ = contrato.marcar_orden_como_enviada(vendedor, orden_id);
    let _ = contrato.marcar_como_recibida(juan, orden_id);

    let resultado = contrato.calificar_vendedor(juan, orden_id, 0);
    assert!(matches!(resultado, Err(SistemaError::CalificacionInvalida)));
}

#[test]
fn usuario_ambos_puede_listar_sus_productos() {
    let mut contrato = Marketplace::nuevo();

    let caller = AccountId::from([0x09; 32]);

    let _ = contrato.registrar_usuario(caller, RolUsuario::Ambos);

    let _ = contrato.publicar_producto(
        caller,
        "P1".to_string(),
        "D1".to_string(),
        100,
        5,
        "C1".to_string(),
    );

    let productos = contrato.listar_mis_productos(caller).unwrap();
    assert_eq!(productos.len(), 1);
    assert_eq!(productos[0].nombre, "P1");
}

#[test]
fn orden_no_existe_al_calificar() {
    let (mut contrato, _) = setup_contract_con_vendedor();

    let juan = bob();
    let _ = contrato.registrar_usuario(juan, RolUsuario::Comprador);

    let resultado = contrato.calificar_vendedor(juan, 999, 5);
    assert!(matches!(resultado, Err(SistemaError::OrdenNoExiste)));
}

#[test]
fn calificar_comprador_orden_no_existe() {
    let (mut contrato, vendedor) = setup_contract_con_vendedor();

    let resultado = contrato.calificar_comprador(vendedor, 999, 5);
    assert!(matches!(resultado, Err(SistemaError::OrdenNoExiste)));
}

#[test]
fn producto_publicado_emite_evento() {
    let (mut contrato, vendedor) = setup_contract_con_vendedor();
    let antes = contrato.obtener_eventos().len();
    contrato
        .publicar_producto(
            vendedor,
            "Camara".to_string(),
            "Camara HD".to_string(),
            1200,
            3,
            "Fotografia".to_string(),
        )
        .unwrap();
    let despues = contrato.obtener_eventos().len();
    assert!(despues > antes, "Se debe emitir al menos un evento al publicar");
}

#[test]
fn solicitar_cancelacion_mutua_devuelve_stock() {
    let (mut contrato, vendedor) = setup_contract_con_vendedor();

    contrato
        .publicar_producto(
            vendedor,
            "Libro".to_string(),
            "Libro técnico".to_string(),
            200,
            5,
            "Libros".to_string(),
        )
        .unwrap();

    let juan = bob();
    contrato
        .registrar_usuario(juan, RolUsuario::Comprador)
        .unwrap();
    let orden_id = contrato.crear_orden(juan, 0, 2).unwrap();

    assert_eq!(contrato.obtener_todos_los_productos()[0].cantidad, 3);

    contrato
        .solicitar_cancelacion_orden(juan, orden_id)
        .unwrap();

    contrato
        .solicitar_cancelacion_orden(vendedor, orden_id)
        .unwrap();

    let orden = &contrato.obtener_todas_las_ordenes()[orden_id as usize];
    assert_eq!(orden.estado, EstadoOrden::Cancelada);
    let productos = contrato.obtener_todos_los_productos();
    assert_eq!(productos[0].cantidad, 5);
}

#[test]
fn solicitar_cancelacion_unilateral_no_devuelve_stock() {
    let (mut contrato, vendedor) = setup_contract_con_vendedor();

    contrato
        .publicar_producto(
            vendedor,
            "Teclado".to_string(),
            "Mecánico".to_string(),
            800,
            4,
            "Periféricos".to_string(),
        )
        .unwrap();

    let juan = bob();
    contrato
        .registrar_usuario(juan, RolUsuario::Comprador)
        .unwrap();
    let orden_id = contrato.crear_orden(juan, 0, 1).unwrap();

    contrato
        .solicitar_cancelacion_orden(juan, orden_id)
        .unwrap();

    let orden = &contrato.obtener_todas_las_ordenes()[orden_id as usize];
    assert_eq!(orden.estado, EstadoOrden::Pendiente);
    assert_eq!(contrato.obtener_todos_los_productos()[0].cantidad, 3);
}

#[test]
fn listar_productos_por_vendedor_message_funciona() {
    let (mut contrato, vendedor) = setup_contract_con_vendedor();

    contrato
        .publicar_producto(
            vendedor,
            "Papel".to_string(),
            "A4 500 hojas".to_string(),
            50,
            10,
            "Oficina".to_string(),
        )
        .unwrap();

    let lista = contrato.listar_productos_por_vendedor(vendedor).unwrap();
    assert_eq!(lista.len(), 1);
    assert_eq!(lista[0].vendedor, vendedor);
    assert_eq!(lista[0].nombre, "Papel");
}

#[test]
fn evento_producto_publicado_aumenta_contador() {
    let (mut contrato, vendedor) = setup_contract_con_vendedor();
    let inicial = contrato.obtener_eventos().len();
    contrato
        .publicar_producto(
            vendedor,
            "SSD".to_string(),
            "1TB NVMe".to_string(),
            15000,
            2,
            "Almacenamiento".to_string(),
        )
        .unwrap();
    let final_len = contrato.obtener_eventos().len();
    assert!(final_len >= inicial + 1);
}

#[test]
fn modificar_rol_emite_evento_y_actualiza_storage() {
    let mut contrato = Marketplace::nuevo();
    let maria = alice();

    contrato
        .registrar_usuario(maria, RolUsuario::Comprador)
        .unwrap();
    contrato
        .modificar_rol_usuario(maria, RolUsuario::Vendedor)
        .unwrap();

    let u = contrato.obtener_usuario(maria).unwrap();
    assert_eq!(u.rol, RolUsuario::Vendedor);

    let eventos = contrato.obtener_eventos();
    assert!(!eventos.is_empty());
}
