//! Access to the meshes and materials of a scene, by position and by name.
use vstd::prelude::*;

use crate::models::{Material, Mesh, Scene};

verus! {

/// The position of the first mesh named `name`, if any.
pub open spec fn first_mesh_named(meshes: Seq<Mesh>, name: Seq<char>) -> Option<int> {
    if exists|i: int| 0 <= i < meshes.len() && (#[trigger] meshes[i]).name@ == name {
        Some(
            choose|i: int|
                0 <= i < meshes.len() && (#[trigger] meshes[i]).name@ == name && forall|j: int|
                    0 <= j < i ==> (#[trigger] meshes[j]).name@ != name,
        )
    } else {
        None
    }
}

/// The position of the first material named `name`, if any.
pub open spec fn first_material_named(materials: Seq<Material>, name: Seq<char>) -> Option<int> {
    if exists|i: int| 0 <= i < materials.len() && (#[trigger] materials[i]).name@ == name {
        Some(
            choose|i: int|
                0 <= i < materials.len() && (#[trigger] materials[i]).name@ == name && forall|
                    j: int,
                | 0 <= j < i ==> (#[trigger] materials[j]).name@ != name,
        )
    } else {
        None
    }
}

/// Finds the position of the first mesh named `name`.
fn find_mesh(meshes: &Vec<Mesh>, name: &str) -> (r: Option<usize>)
    ensures
        match r {
            Some(i) => i < meshes@.len() && first_mesh_named(meshes@, name@) == Some(i as int),
            None => first_mesh_named(meshes@, name@) is None,
        },
{
    let target = name.to_owned();
    let n = meshes.len();
    for i in 0..n
        invariant
            n == meshes@.len(),
            target@ == name@,
            forall|j: int| 0 <= j < i ==> (#[trigger] meshes@[j]).name@ != name@,
    {
        if meshes[i].name == target {
            assert(first_mesh_named(meshes@, name@) == Some(i as int)) by {
                let k = choose|k: int|
                    0 <= k < meshes@.len() && (#[trigger] meshes@[k]).name@ == name@ && forall|
                        j: int,
                    | 0 <= j < k ==> (#[trigger] meshes@[j]).name@ != name@;
                assert(meshes@[i as int].name@ == name@);
                if k < i {
                } else if k > i {
                    assert(meshes@[i as int].name@ != name@);
                }
            }
            return Some(i);
        }
    }
    None
}

/// Finds the position of the first material named `name`.
fn find_material(materials: &Vec<Material>, name: &str) -> (r: Option<usize>)
    ensures
        match r {
            Some(i) => i < materials@.len() && first_material_named(materials@, name@) == Some(
                i as int,
            ),
            None => first_material_named(materials@, name@) is None,
        },
{
    let target = name.to_owned();
    let n = materials.len();
    for i in 0..n
        invariant
            n == materials@.len(),
            target@ == name@,
            forall|j: int| 0 <= j < i ==> (#[trigger] materials@[j]).name@ != name@,
    {
        if materials[i].name == target {
            assert(first_material_named(materials@, name@) == Some(i as int)) by {
                let k = choose|k: int|
                    0 <= k < materials@.len() && (#[trigger] materials@[k]).name@ == name@
                        && forall|j: int|
                        0 <= j < k ==> (#[trigger] materials@[j]).name@ != name@;
                assert(materials@[i as int].name@ == name@);
                if k > i {
                    assert(materials@[i as int].name@ != name@);
                }
            }
            return Some(i);
        }
    }
    None
}

/// The mesh at `index`, if there is one.
pub fn get_mesh(scene: &Scene, index: usize) -> (r: Option<&Mesh>)
    ensures
        match r {
            Some(m) => index < scene.meshes@.len() && *m == scene.meshes@[index as int],
            None => index >= scene.meshes@.len(),
        },
{
    if index < scene.meshes.len() {
        Some(&scene.meshes[index])
    } else {
        None
    }
}

/// The material at `index`, if there is one.
pub fn get_material(scene: &Scene, index: usize) -> (r: Option<&Material>)
    ensures
        match r {
            Some(m) => index < scene.materials@.len() && *m == scene.materials@[index as int],
            None => index >= scene.materials@.len(),
        },
{
    if index < scene.materials.len() {
        Some(&scene.materials[index])
    } else {
        None
    }
}

/// A mutable reference to the mesh at `index`, if there is one.
pub fn get_mesh_mut(scene: &mut Scene, index: usize) -> (r: Option<&mut Mesh>)
    ensures
        match r {
            Some(m) => {
                &&& index < old(scene).meshes@.len()
                &&& *m == old(scene).meshes@[index as int]
                &&& final(scene).meshes@ == old(scene).meshes@.update(index as int, *final(m))
                &&& final(scene).materials == old(scene).materials
                &&& final(scene).skins == old(scene).skins
                &&& final(scene).animations == old(scene).animations
                &&& final(scene).nodes == old(scene).nodes
                &&& final(scene).external_models == old(scene).external_models
            },
            None => index >= old(scene).meshes@.len() && *final(scene) == *old(scene),
        },
{
    if index < scene.meshes.len() {
        Some(&mut scene.meshes[index])
    } else {
        None
    }
}

/// A mutable reference to the material at `index`, if there is one.
pub fn get_material_mut(scene: &mut Scene, index: usize) -> (r: Option<&mut Material>)
    ensures
        match r {
            Some(m) => {
                &&& index < old(scene).materials@.len()
                &&& *m == old(scene).materials@[index as int]
                &&& final(scene).materials@ == old(scene).materials@.update(
                    index as int,
                    *final(m),
                )
                &&& final(scene).meshes == old(scene).meshes
                &&& final(scene).skins == old(scene).skins
                &&& final(scene).animations == old(scene).animations
                &&& final(scene).nodes == old(scene).nodes
                &&& final(scene).external_models == old(scene).external_models
            },
            None => index >= old(scene).materials@.len() && *final(scene) == *old(scene),
        },
{
    if index < scene.materials.len() {
        Some(&mut scene.materials[index])
    } else {
        None
    }
}

/// The first mesh named `name`, if any.
pub fn get_mesh_by_name<'a>(scene: &'a Scene, name: &str) -> (r: Option<&'a Mesh>)
    ensures
        match first_mesh_named(scene.meshes@, name@) {
            Some(i) => r == Some(&scene.meshes@[i]),
            None => r is None,
        },
{
    match find_mesh(&scene.meshes, name) {
        Some(i) => Some(&scene.meshes[i]),
        None => None,
    }
}

/// The first material named `name`, if any.
pub fn get_material_by_name<'a>(scene: &'a Scene, name: &str) -> (r: Option<&'a Material>)
    ensures
        match first_material_named(scene.materials@, name@) {
            Some(i) => r == Some(&scene.materials@[i]),
            None => r is None,
        },
{
    match find_material(&scene.materials, name) {
        Some(i) => Some(&scene.materials[i]),
        None => None,
    }
}

/// A mutable reference to the first mesh named `name`, if any.
pub fn get_mesh_by_name_mut<'a>(scene: &'a mut Scene, name: &str) -> (r: Option<&'a mut Mesh>)
    ensures
        match first_mesh_named(old(scene).meshes@, name@) {
            Some(i) => r matches Some(m) && {
                &&& *m == old(scene).meshes@[i]
                &&& final(scene).meshes@ == old(scene).meshes@.update(i, *final(m))
                &&& final(scene).materials == old(scene).materials
                &&& final(scene).skins == old(scene).skins
                &&& final(scene).animations == old(scene).animations
                &&& final(scene).nodes == old(scene).nodes
                &&& final(scene).external_models == old(scene).external_models
            },
            None => r is None && *final(scene) == *old(scene),
        },
{
    match find_mesh(&scene.meshes, name) {
        Some(i) => Some(&mut scene.meshes[i]),
        None => None,
    }
}

/// A mutable reference to the first material named `name`, if any.
pub fn get_material_by_name_mut<'a>(scene: &'a mut Scene, name: &str) -> (r: Option<
    &'a mut Material,
>)
    ensures
        match first_material_named(old(scene).materials@, name@) {
            Some(i) => r matches Some(m) && {
                &&& *m == old(scene).materials@[i]
                &&& final(scene).materials@ == old(scene).materials@.update(i, *final(m))
                &&& final(scene).meshes == old(scene).meshes
                &&& final(scene).skins == old(scene).skins
                &&& final(scene).animations == old(scene).animations
                &&& final(scene).nodes == old(scene).nodes
                &&& final(scene).external_models == old(scene).external_models
            },
            None => r is None && *final(scene) == *old(scene),
        },
{
    match find_material(&scene.materials, name) {
        Some(i) => Some(&mut scene.materials[i]),
        None => None,
    }
}

/// The meshes of the scene.
pub fn get_meshes(scene: &Scene) -> (r: &Vec<Mesh>)
    ensures
        *r == scene.meshes,
{
    &scene.meshes
}

/// A mutable reference to the meshes of the scene.
pub fn get_meshes_mut(scene: &mut Scene) -> (r: &mut Vec<Mesh>)
    ensures
        *r == old(scene).meshes,
        final(scene).meshes == *final(r),
        final(scene).materials == old(scene).materials,
        final(scene).skins == old(scene).skins,
        final(scene).animations == old(scene).animations,
        final(scene).nodes == old(scene).nodes,
        final(scene).external_models == old(scene).external_models,
{
    &mut scene.meshes
}

/// The materials of the scene.
pub fn get_materials(scene: &Scene) -> (r: &Vec<Material>)
    ensures
        *r == scene.materials,
{
    &scene.materials
}

/// A mutable reference to the materials of the scene.
pub fn get_materials_mut(scene: &mut Scene) -> (r: &mut Vec<Material>)
    ensures
        *r == old(scene).materials,
        final(scene).materials == *final(r),
        final(scene).meshes == old(scene).meshes,
        final(scene).skins == old(scene).skins,
        final(scene).animations == old(scene).animations,
        final(scene).nodes == old(scene).nodes,
        final(scene).external_models == old(scene).external_models,
{
    &mut scene.materials
}

} // verus!
