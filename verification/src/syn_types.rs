//! The `syn` syntax-tree types that the parser's conversions read.
use vstd::prelude::*;
use syn::{File as SxFile, Item as SxItem, ImplItem as SxImplItem, TraitItem as SxTraitItem, Expr as SxExpr, Block as SxBlock, Stmt as SxStmt, Pat as SxPat, Type as SxType, Path as SxPath, PathArguments as SxPathArguments, GenericArgument as SxGenericArgument, AngleBracketedGenericArguments as SxAngleBracketedGenericArguments, TypeParamBound as SxTypeParamBound, ReturnType as SxReturnType, Macro as SxMacro, Attribute as SxAttribute, Visibility as SxVisibility, Signature as SxSignature, FnArg as SxFnArg, Fields as SxFields, Field as SxField, Variant as SxVariant, UseTree as SxUseTree, Generics as SxGenerics, GenericParam as SxGenericParam, Lit as SxLit, Arm as SxArm, QSelf as SxQSelf, ItemImpl as SxItemImpl, BoundLifetimes as SxBoundLifetimes, TypeBareFn as SxTypeBareFn, ForeignItem as SxForeignItem, TraitItemType as SxTraitItemType, Local as SxLocal, ExprMethodCall as SxExprMethodCall};

verus! {

#[verifier::external_type_specification]
#[verifier::external_body]
pub struct ExSynFile(SxFile);

#[verifier::external_type_specification]
#[verifier::external_body]
pub struct ExSynItem(SxItem);

#[verifier::external_type_specification]
#[verifier::external_body]
pub struct ExSynImplItem(SxImplItem);

#[verifier::external_type_specification]
#[verifier::external_body]
pub struct ExSynTraitItem(SxTraitItem);

#[verifier::external_type_specification]
#[verifier::external_body]
pub struct ExSynExpr(SxExpr);

#[verifier::external_type_specification]
#[verifier::external_body]
pub struct ExSynBlock(SxBlock);

#[verifier::external_type_specification]
#[verifier::external_body]
pub struct ExSynStmt(SxStmt);

#[verifier::external_type_specification]
#[verifier::external_body]
pub struct ExSynPat(SxPat);

#[verifier::external_type_specification]
#[verifier::external_body]
pub struct ExSynType(SxType);

#[verifier::external_type_specification]
#[verifier::external_body]
pub struct ExSynPath(SxPath);

#[verifier::external_type_specification]
#[verifier::external_body]
pub struct ExSynPathArguments(SxPathArguments);

#[verifier::external_type_specification]
#[verifier::external_body]
pub struct ExSynGenericArgument(SxGenericArgument);

#[verifier::external_type_specification]
#[verifier::external_body]
pub struct ExSynAngleArgs(SxAngleBracketedGenericArguments);

#[verifier::external_type_specification]
#[verifier::external_body]
pub struct ExSynTypeParamBound(SxTypeParamBound);

#[verifier::external_type_specification]
#[verifier::external_body]
pub struct ExSynReturnType(SxReturnType);

#[verifier::external_type_specification]
#[verifier::external_body]
pub struct ExSynMacro(SxMacro);

#[verifier::external_type_specification]
#[verifier::external_body]
pub struct ExSynAttribute(SxAttribute);

#[verifier::external_type_specification]
#[verifier::external_body]
pub struct ExSynVisibility(SxVisibility);

#[verifier::external_type_specification]
#[verifier::external_body]
pub struct ExSynSignature(SxSignature);

#[verifier::external_type_specification]
#[verifier::external_body]
pub struct ExSynFnArg(SxFnArg);

#[verifier::external_type_specification]
#[verifier::external_body]
pub struct ExSynFields(SxFields);

#[verifier::external_type_specification]
#[verifier::external_body]
pub struct ExSynField(SxField);

#[verifier::external_type_specification]
#[verifier::external_body]
pub struct ExSynVariant(SxVariant);

#[verifier::external_type_specification]
#[verifier::external_body]
pub struct ExSynUseTree(SxUseTree);

#[verifier::external_type_specification]
#[verifier::external_body]
pub struct ExSynGenerics(SxGenerics);

#[verifier::external_type_specification]
#[verifier::external_body]
pub struct ExSynGenericParam(SxGenericParam);

#[verifier::external_type_specification]
#[verifier::external_body]
pub struct ExSynLit(SxLit);

#[verifier::external_type_specification]
#[verifier::external_body]
pub struct ExSynArm(SxArm);

#[verifier::external_type_specification]
#[verifier::external_body]
pub struct ExSynQSelf(SxQSelf);

#[verifier::external_type_specification]
#[verifier::external_body]
pub struct ExSynItemImpl(SxItemImpl);

#[verifier::external_type_specification]
#[verifier::external_body]
pub struct ExSynBoundLifetimes(SxBoundLifetimes);

#[verifier::external_type_specification]
#[verifier::external_body]
pub struct ExSynTypeBareFn(SxTypeBareFn);

#[verifier::external_type_specification]
#[verifier::external_body]
pub struct ExSynForeignItem(SxForeignItem);

#[verifier::external_type_specification]
#[verifier::external_body]
pub struct ExSynTraitItemType(SxTraitItemType);

#[verifier::external_type_specification]
#[verifier::external_body]
pub struct ExSynLocal(SxLocal);

#[verifier::external_type_specification]
#[verifier::external_body]
pub struct ExSynExprMethodCall(SxExprMethodCall);

} // verus!
